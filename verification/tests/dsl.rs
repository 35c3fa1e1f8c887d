use reports::arg::{Arg, ArgGroup, RawArgGroup, Registry};
use reports::clause::Clause;
use reports::engine::Engine;
use reports::expand::expand;
use reports::expression::Expression;
use reports::table::Table;
use reports::tree::{Component, Function, Node, Text};
use reports::vocab::{Date, DslError, TimeFrequency};

fn registry() -> Registry {
    Registry::new(
        vec!["change".to_string(), "avg_freq".to_string(), "fig".to_string()],
        vec!["expression".to_string(), "table".to_string()],
        vec!["cat_purrs".to_string(), "website_visits".to_string()],
    )
}

fn date() -> Date {
    Date { year: 2022, month: 2, day: 4 }
}

fn base_ctx() -> Expression {
    let mut ctx = Expression::new();
    ctx.set_data_name("cat_purrs".to_string());
    ctx.set_date(date());
    ctx
}

fn sel(command: &str, freq: TimeFrequency) -> Expression {
    let mut e = base_ctx();
    e.set_command(command.to_string());
    e.set_frequency(freq);
    e
}

fn fixture_engine() -> Engine {
    Engine::new(vec![
        (sel("change", TimeFrequency::Weekly), "25.0%".to_string()),
        (sel("change", TimeFrequency::Quarterly), "233.3%".to_string()),
        (sel("avg_freq", TimeFrequency::Weekly), "10.0".to_string()),
        (sel("avg_freq", TimeFrequency::Quarterly), "130.0".to_string()),
        (sel("avg_freq", TimeFrequency::Monthly), "43.0".to_string()),
    ])
}

#[test]
fn test_arg() {
    let reg = registry();
    let arg = Arg::from_str(&reg, "fig").unwrap();
    match arg {
        Arg::Command(s) => assert_eq!(s, "fig"),
        _ => panic!("expected a command"),
    }
}

#[test]
fn test_table() {
    let ctx = base_ctx();
    let cols = vec![
        Arg::TimeFrequency(TimeFrequency::Weekly),
        Arg::TimeFrequency(TimeFrequency::Quarterly),
    ];
    let rows = vec![
        Arg::Command("change".to_string()),
        Arg::Command("avg_freq".to_string()),
    ];
    let tbl = Table::new(rows, cols, ctx);
    let rendered = tbl.render(&Expression::new(), &fixture_engine()).unwrap();
    assert_eq!(
        rendered,
        "
| _ | Weekly | Quarterly |
| --- | --- | --- |
| change | 25.0% | 233.3% |
| avg_freq | 10.0 | 130.0 |
"
        .to_string()
    );
}

#[test]
fn create_node_public() {
    let reg = registry();
    let mut vars = Vec::new();
    for var in ["Weekly", "cat_purrs", "change"] {
        vars.push(Arg::from_str(&reg, var).unwrap());
    }
    let vars_2 = vec![Arg::Command("avg_freq".to_string())];
    let vars_3 = vec![Arg::TimeFrequency(TimeFrequency::Quarterly)];

    let mut leaf_1 = Expression::new();
    for v in vars_3 {
        leaf_1.fill_arg(v);
    }
    let mut leaf_2 = Expression::new();
    for v in vars_2 {
        leaf_2.fill_arg(v);
    }
    leaf_1.set_date(date());
    leaf_2.set_date(date());

    let mut value = Expression::new();
    for v in vars {
        value.fill_arg(v);
    }
    let mut branch = Node::new(value);

    branch.add_child(Component::Function(Function::Expressions(vec![leaf_1])));
    branch.add_child(Component::Function(Function::Expressions(vec![leaf_2])));

    assert_eq!(
        branch.render(&Expression::new(), &fixture_engine()).unwrap(),
        String::from("233.3%10.0")
    );
}

#[test]
fn resolution_priority_prefers_command() {
    // "fig" is registered both as a command and as a data-series name; the
    // command variant has the higher priority and must win.
    let reg = Registry::new(
        vec!["fig".to_string()],
        vec![],
        vec!["fig".to_string()],
    );
    let arg = Arg::from_str(&reg, "fig").unwrap();
    assert!(matches!(arg, Arg::Command(_)));
}

#[test]
fn resolution_priority_function_over_data_name() {
    let reg = Registry::new(
        vec![],
        vec!["fig".to_string()],
        vec!["fig".to_string()],
    );
    let arg = Arg::from_str(&reg, "fig").unwrap();
    assert!(matches!(arg, Arg::Function(_)));
}

#[test]
fn set_once_keeps_first_value() {
    let mut e = Expression::new();
    e.set_command("change".to_string());
    e.set_command("avg_freq".to_string());
    assert_eq!(e.command, Some("change".to_string()));
    e.fill_arg(Arg::Command("avg_freq".to_string()));
    assert_eq!(e.command, Some("change".to_string()));
}

#[test]
fn inheritance_does_not_overwrite() {
    // The node sets Quarterly itself; an ambient Weekly must not replace it.
    let mut own = Expression::new();
    own.set_frequency(TimeFrequency::Quarterly);
    own.set_command("change".to_string());
    own.set_data_name("cat_purrs".to_string());
    own.set_date(date());
    let mut node = Node::new(own);
    node.add_child(Component::Function(Function::Expressions(vec![Expression::new()])));

    let mut ambient = Expression::new();
    ambient.set_frequency(TimeFrequency::Weekly);

    let rendered = node.render(&ambient, &fixture_engine()).unwrap();
    assert_eq!(rendered, "233.3%");
}

#[test]
fn table_row_takes_precedence_over_column() {
    // Both axes set the frequency; the row's Quarterly must win the cell.
    let mut ctx = base_ctx();
    ctx.set_command("avg_freq".to_string());
    let rows = vec![Arg::TimeFrequency(TimeFrequency::Quarterly)];
    let cols = vec![Arg::TimeFrequency(TimeFrequency::Monthly)];
    let tbl = Table::new(rows, cols, ctx);
    let rendered = tbl.render(&Expression::new(), &fixture_engine()).unwrap();
    assert_eq!(
        rendered,
        "
| _ | Monthly |
| --- | --- |
| Quarterly | 130.0 |
"
        .to_string()
    );
}

#[test]
fn block_replicates_child_per_selection() {
    // A block over two frequencies with a single text child renders that
    // child once per selection, in declared order.
    let block = Clause::Block(
        vec![ArgGroup::Collection(vec![
            Arg::TimeFrequency(TimeFrequency::Weekly),
            Arg::TimeFrequency(TimeFrequency::Monthly),
        ])],
        vec![Clause::Text("x".to_string())],
    );
    let comp = block.to_component().unwrap();
    let rendered = comp.render(&Expression::new(), &fixture_engine()).unwrap();
    assert_eq!(rendered, "xx");
}

#[test]
fn expander_cross_product_order() {
    let groups = vec![
        ArgGroup::Collection(vec![
            Arg::Command("change".to_string()),
            Arg::Command("avg_freq".to_string()),
        ]),
        ArgGroup::Collection(vec![
            Arg::TimeFrequency(TimeFrequency::Weekly),
            Arg::TimeFrequency(TimeFrequency::Monthly),
        ]),
        ArgGroup::Arg(Arg::DataName("cat_purrs".to_string())),
    ];
    let sels = expand(&groups).unwrap();
    assert_eq!(sels.len(), 4);
    // The first collection varies slowest: lexicographic in declared order.
    assert_eq!(sels[0].command, Some("change".to_string()));
    assert_eq!(sels[0].frequency, Some(TimeFrequency::Weekly));
    assert_eq!(sels[1].command, Some("change".to_string()));
    assert_eq!(sels[1].frequency, Some(TimeFrequency::Monthly));
    assert_eq!(sels[2].command, Some("avg_freq".to_string()));
    assert_eq!(sels[2].frequency, Some(TimeFrequency::Weekly));
    assert_eq!(sels[3].command, Some("avg_freq".to_string()));
    assert_eq!(sels[3].frequency, Some(TimeFrequency::Monthly));
    for s in &sels {
        assert_eq!(s.data_name, Some("cat_purrs".to_string()));
    }
}

#[test]
fn expander_zips_named_collections() {
    // Two collections with one name are one axis, iterated in parallel.
    let groups = vec![
        ArgGroup::NamedCollection(
            "axis".to_string(),
            vec![
                Arg::Command("change".to_string()),
                Arg::Command("avg_freq".to_string()),
            ],
        ),
        ArgGroup::NamedCollection(
            "axis".to_string(),
            vec![
                Arg::TimeFrequency(TimeFrequency::Weekly),
                Arg::TimeFrequency(TimeFrequency::Monthly),
            ],
        ),
    ];
    let sels = expand(&groups).unwrap();
    assert_eq!(sels.len(), 2);
    assert_eq!(sels[0].command, Some("change".to_string()));
    assert_eq!(sels[0].frequency, Some(TimeFrequency::Weekly));
    assert_eq!(sels[1].command, Some("avg_freq".to_string()));
    assert_eq!(sels[1].frequency, Some(TimeFrequency::Monthly));
}

#[test]
fn expander_rejects_mismatched_named_collections() {
    let groups = vec![
        ArgGroup::NamedCollection(
            "axis".to_string(),
            vec![Arg::Command("change".to_string())],
        ),
        ArgGroup::NamedCollection(
            "axis".to_string(),
            vec![
                Arg::TimeFrequency(TimeFrequency::Weekly),
                Arg::TimeFrequency(TimeFrequency::Monthly),
            ],
        ),
    ];
    assert_eq!(expand(&groups).unwrap_err(), DslError::ExpansionMismatch);
}

#[test]
fn resolver_reports_unknown_label() {
    let reg = registry();
    let err = Arg::from_labelled_str(&reg, "colour", "red").unwrap_err();
    assert_eq!(err, DslError::UnknownLabel);
}

#[test]
fn resolver_reports_invalid_value() {
    let reg = registry();
    let err = Arg::from_labelled_str(&reg, "frequency", "Sometimes").unwrap_err();
    assert_eq!(err, DslError::InvalidValue);
}

#[test]
fn resolver_reports_unresolved_token() {
    let reg = registry();
    let err = Arg::from_str(&reg, "nonsense").unwrap_err();
    assert_eq!(err, DslError::UnresolvedToken);
}

#[test]
fn resolver_labelled_dispatch() {
    let reg = registry();
    let arg = Arg::from_labelled_str(&reg, "frequency", "Weekly").unwrap();
    assert!(matches!(arg, Arg::TimeFrequency(TimeFrequency::Weekly)));
    let arg = Arg::from_labelled_str(&reg, "date", "2022-02-04").unwrap();
    match arg {
        Arg::Date(d) => {
            assert_eq!(d.year, 2022);
            assert_eq!(d.month, 2);
            assert_eq!(d.day, 4);
        },
        _ => panic!("expected a date"),
    }
}

#[test]
fn date_rejects_invalid_calendar_day() {
    assert!(Date::from_str("2022-02-30").is_none());
    assert!(Date::from_str("2022-13-01").is_none());
    assert!(Date::from_str("2022-2-4").is_none());
    assert!(Date::from_str("2020-02-29").is_some());
    assert!(Date::from_str("2021-02-29").is_none());
}

#[test]
fn date_formats_canonically() {
    assert_eq!(date().text(), "2022-02-04".to_string());
}

#[test]
fn unknown_function_name_is_rejected() {
    let err = Function::from_labelled_groups("bogus", &vec![]).unwrap_err();
    assert_eq!(err, DslError::UnknownFunction);
}

#[test]
fn table_clause_requires_both_axes() {
    let groups = vec![ArgGroup::NamedCollection(
        "rows".to_string(),
        vec![Arg::Command("change".to_string())],
    )];
    let err = Function::from_labelled_groups("table", &groups).unwrap_err();
    assert_eq!(err, DslError::InvalidValue);
}

#[test]
fn engine_reports_missing_command() {
    let e = Expression::new();
    assert_eq!(
        fixture_engine().evaluate(&e).unwrap_err(),
        DslError::UnknownCommand
    );
}

#[test]
fn engine_reports_missing_figure() {
    let e = sel("change", TimeFrequency::Monthly);
    assert_eq!(fixture_engine().evaluate(&e).unwrap_err(), DslError::CalcError);
}

#[test]
fn text_ignores_ambient_selection() {
    let t = Text("hello".to_string());
    assert_eq!(t.render(&sel("change", TimeFrequency::Weekly)).unwrap(), "hello");
}

#[test]
fn raw_clause_resolves_through_registry() {
    let reg = registry();
    let raw = reports::clause::RawClause::Function(vec![
        RawArgGroup::LabelledArg("command".to_string(), "change".to_string()),
        RawArgGroup::Arg("Weekly".to_string()),
        RawArgGroup::Arg("cat_purrs".to_string()),
        RawArgGroup::Arg("2022-02-04".to_string()),
    ]);
    let clause = Clause::from_raw(&reg, &raw).unwrap();
    let comp = clause.to_component().unwrap();
    let rendered = comp.render(&Expression::new(), &fixture_engine()).unwrap();
    assert_eq!(rendered, "25.0%");
}

#[test]
fn raw_clause_propagates_first_error() {
    let reg = registry();
    let raw = reports::clause::RawClause::Function(vec![RawArgGroup::Arg(
        "nonsense".to_string(),
    )]);
    assert_eq!(
        Clause::from_raw(&reg, &raw).unwrap_err(),
        DslError::UnresolvedToken
    );
}

#[test]
fn function_clause_joins_with_spaces() {
    let groups = vec![
        ArgGroup::Collection(vec![
            Arg::TimeFrequency(TimeFrequency::Weekly),
            Arg::TimeFrequency(TimeFrequency::Quarterly),
        ]),
        ArgGroup::Arg(Arg::Command("change".to_string())),
        ArgGroup::Arg(Arg::DataName("cat_purrs".to_string())),
        ArgGroup::Arg(Arg::Date(date())),
    ];
    let clause = Clause::Function(groups);
    let comp = clause.to_component().unwrap();
    let rendered = comp.render(&Expression::new(), &fixture_engine()).unwrap();
    assert_eq!(rendered, "25.0% 233.3%");
}

#[test]
fn named_table_clause_builds_table() {
    let groups = vec![
        ArgGroup::NamedCollection(
            "rows".to_string(),
            vec![
                Arg::Command("change".to_string()),
                Arg::Command("avg_freq".to_string()),
            ],
        ),
        ArgGroup::NamedCollection(
            "cols".to_string(),
            vec![
                Arg::TimeFrequency(TimeFrequency::Weekly),
                Arg::TimeFrequency(TimeFrequency::Quarterly),
            ],
        ),
        ArgGroup::Arg(Arg::DataName("cat_purrs".to_string())),
        ArgGroup::Arg(Arg::Date(date())),
    ];
    let clause = Clause::NamedFunction("table".to_string(), groups);
    let comp = clause.to_component().unwrap();
    let rendered = comp.render(&Expression::new(), &fixture_engine()).unwrap();
    assert!(rendered.contains("| change | 25.0% | 233.3% |"));
    assert!(rendered.contains("| avg_freq | 10.0 | 130.0 |"));
    assert!(rendered.contains("| _ | Weekly | Quarterly |"));
}

#[test]
fn failing_cell_aborts_whole_table() {
    let mut ctx = base_ctx();
    ctx.set_command("change".to_string());
    // Monthly change has no fixture figure: the whole table must fail.
    let rows = vec![Arg::TimeFrequency(TimeFrequency::Monthly)];
    let cols = vec![Arg::TimeFrequency(TimeFrequency::Weekly)];
    let tbl = Table::new(rows, cols, ctx);
    assert_eq!(
        tbl.render(&Expression::new(), &fixture_engine()).unwrap_err(),
        DslError::CalcError
    );
}

#[test]
fn frequency_tokens_round_trip() {
    for name in ["Yearly", "Quarterly", "Monthly", "Weekly", "Daily"] {
        let f = TimeFrequency::from_str(name).unwrap();
        assert_eq!(f.text(), name.to_string());
    }
    assert!(TimeFrequency::from_str("weekly").is_none());
}

#[test]
fn date_argument_labels_table_row() {
    let mut ctx = Expression::new();
    ctx.set_command("change".to_string());
    ctx.set_data_name("cat_purrs".to_string());
    let rows = vec![Arg::Date(date())];
    let cols = vec![Arg::TimeFrequency(TimeFrequency::Weekly)];
    let tbl = Table::new(rows, cols, ctx);
    let rendered = tbl.render(&Expression::new(), &fixture_engine()).unwrap();
    assert_eq!(
        rendered,
        "
| _ | Weekly |
| --- | --- |
| 2022-02-04 | 25.0% |
"
        .to_string()
    );
}

#[test]
fn resolve_dispatches_on_label_presence() {
    let reg = registry();
    let bare = Arg::resolve(&reg, None, "Weekly").unwrap();
    assert!(matches!(bare, Arg::TimeFrequency(TimeFrequency::Weekly)));
    let labelled = Arg::resolve(&reg, Some("name"), "cat_purrs").unwrap();
    assert!(matches!(labelled, Arg::DataName(_)));
    assert_eq!(
        Arg::resolve(&reg, Some("name"), "unknown_series").unwrap_err(),
        DslError::InvalidValue
    );
}

#[test]
fn leap_year_century_rules() {
    assert!(Date::from_str("1900-02-29").is_none());
    assert!(Date::from_str("2000-02-29").is_some());
}

#[test]
fn display_style_tokens_resolve() {
    let reg = registry();
    let arg = Arg::from_str(&reg, "Words").unwrap();
    assert!(matches!(
        arg,
        Arg::RenderContext(reports::vocab::RenderContext::Words)
    ));
}
