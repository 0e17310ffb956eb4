use squeel::attributes::{
    column_attributes, parse_column_items, table_attributes, AttrError, AttrItem, AttrList, AttrValue,
    ColumnAttributes, TableAttributes,
};
use squeel::rename::Rename;

fn flag(n: &str) -> AttrItem {
    AttrItem::Flag(n.to_string())
}

fn assign(n: &str, v: AttrValue) -> AttrItem {
    AttrItem::Assign(n.to_string(), v)
}

fn lit(s: &str) -> AttrValue {
    AttrValue::Str(s.to_string())
}

fn call(func: Option<&str>, args: Vec<Option<&str>>) -> AttrValue {
    AttrValue::Call {
        func: func.map(|f| f.to_string()),
        args: args.into_iter().map(|a| a.map(|a| a.to_string())).collect(),
    }
}

fn list(name: &str, items: Vec<AttrItem>) -> AttrList {
    AttrList { name: name.to_string(), items: Ok(items) }
}

#[test]
fn column_flags_and_settings() {
    let p = parse_column_items(
        &vec![
            flag("primary"),
            flag("unique"),
            flag("ignore"),
            flag("whatever"),
            assign("rename", lit("camelCase")),
            assign("name", lit("the_id")),
            assign("foreign", call(Some("Manga"), vec![Some("id")])),
            assign("other", AttrValue::Other),
        ],
        Some(0),
        0,
    );
    assert!(!p.aborted);
    assert!(p.diagnostics.is_empty());
    let a = p.value;
    assert!(a.primary && a.unique && a.ignore);
    assert_eq!(a.rename, Some(Rename::Camel));
    assert_eq!(a.name.as_deref(), Some("the_id"));
    assert_eq!(a.foreign, Some(("Manga".to_string(), "id".to_string())));
}

#[test]
fn column_errors_are_reported_and_reading_goes_on() {
    let p = parse_column_items(
        &vec![
            assign("rename", lit("nope")),
            assign("name", AttrValue::Other),
            assign("foreign", lit("Manga(id)")),
            flag("unique"),
        ],
        Some(2),
        1,
    );
    assert!(!p.aborted);
    assert!(p.value.unique);
    assert_eq!(p.value.rename, None);
    let errs: Vec<(usize, AttrError)> = p.diagnostics.iter().map(|d| (d.item, d.error)).collect();
    assert_eq!(
        errs,
        vec![
            (0, AttrError::InvalidRename),
            (1, AttrError::ExpectedStringLiteral),
            (2, AttrError::ExpectedForeignSyntax)
        ]
    );
    assert_eq!(p.diagnostics[1].message, "expected a string literal");
    assert_eq!(p.diagnostics[2].message, "expected the syntax `Table(column)`");
    assert!(p.diagnostics[0].message.starts_with("did you mean: `snake_case`"));
    assert!(p.diagnostics.iter().all(|d| d.field == Some(2) && d.attr == 1));
}

#[test]
fn malformed_foreign_keys_stop_the_reading() {
    for (v, e) in [
        (call(None, vec![Some("id")]), AttrError::ExpectedTableIdentifier),
        (call(Some("Manga"), vec![]), AttrError::ExpectedOneColumn),
        (call(Some("Manga"), vec![Some("id"), Some("x")]), AttrError::ExpectedOneColumn),
        (call(Some("Manga"), vec![None]), AttrError::ExpectedColumnIdentifier),
    ] {
        let p = parse_column_items(&vec![flag("unique"), assign("foreign", v), flag("primary")], Some(0), 0);
        assert!(p.aborted);
        assert_eq!(p.diagnostics.len(), 1);
        assert_eq!(p.diagnostics[0].error, e);
        assert_eq!(p.diagnostics[0].item, 1);
        assert!(!p.value.primary);
    }
    assert_eq!(AttrError::ExpectedTableIdentifier.message(), "expected a table indentifier");
    assert_eq!(AttrError::ExpectedOneColumn.message(), "expected only 1 column");
    assert_eq!(AttrError::ExpectedColumnIdentifier.message(), "expected a table column identifier");
}

#[test]
fn column_attributes_combine_and_take_the_tables_rename_all() {
    let mut table = TableAttributes::new();
    table.rename_all = Some(Rename::Upper);
    let lists = vec![
        list("column", vec![flag("primary"), assign("name", lit("a"))]),
        list("serde", vec![flag("unique")]),
        list("column", vec![assign("name", lit("b"))]),
        AttrList { name: "column".to_string(), items: Err("unexpected token".to_string()) },
    ];
    let p = column_attributes(&table, &lists, 3);
    assert!(!p.aborted);
    assert!(p.value.primary);
    assert!(!p.value.unique);
    assert_eq!(p.value.name.as_deref(), Some("b"));
    assert_eq!(p.value.rename, Some(Rename::Upper));
    assert_eq!(p.diagnostics.len(), 1);
    assert_eq!(p.diagnostics[0].error, AttrError::Syntax);
    assert_eq!(p.diagnostics[0].attr, 3);
    assert_eq!(p.diagnostics[0].message, "CATTRERR: unexpected token");

    let own = vec![list("column", vec![assign("rename", lit("snake_case"))])];
    assert_eq!(column_attributes(&table, &own, 0).value.rename, Some(Rename::Snake));
}

#[test]
fn a_fatal_error_stops_the_later_attributes() {
    let lists = vec![
        list("column", vec![assign("foreign", call(Some("T"), vec![]))]),
        list("column", vec![flag("primary"), assign("rename", lit("bad"))]),
    ];
    let p = column_attributes(&TableAttributes::new(), &lists, 0);
    assert!(p.aborted);
    assert_eq!(p.diagnostics.len(), 1);
    assert!(!p.value.primary);
}

#[test]
fn table_settings_and_errors() {
    let lists = vec![
        list("table", vec![assign("rename", lit("lower")), assign("rename_all", lit("UPPER"))]),
        list("derive", vec![flag("Debug")]),
        list("table", vec![assign("name", lit("things")), flag("primary"), assign("rename", lit("x"))]),
    ];
    let p = table_attributes(&lists);
    assert!(!p.aborted);
    assert_eq!(p.value.rename, Some(Rename::Lower));
    assert_eq!(p.value.rename_all, Some(Rename::Upper));
    assert_eq!(p.value.name.as_deref(), Some("things"));
    let errs: Vec<(Option<usize>, usize, usize, AttrError)> =
        p.diagnostics.iter().map(|d| (d.field, d.attr, d.item, d.error)).collect();
    assert_eq!(errs, vec![(None, 2, 1, AttrError::InvalidAttribute), (None, 2, 2, AttrError::InvalidRename)]);
    assert_eq!(p.diagnostics[0].message, "invalid attribute");
}

#[test]
fn later_settings_win_and_flags_accumulate() {
    let mut a = ColumnAttributes::new();
    a.primary = true;
    a.name = Some("x".to_string());
    a.rename = Some(Rename::Kebab);
    let mut b = ColumnAttributes::new();
    b.unique = true;
    b.name = Some("y".to_string());
    a.add_assign(b);
    assert!(a.primary && a.unique && !a.ignore);
    assert_eq!(a.name.as_deref(), Some("y"));
    assert_eq!(a.rename, Some(Rename::Kebab));

    let mut t = TableAttributes::new();
    t.add_assign(TableAttributes { name: None, rename: Some(Rename::Pascal), rename_all: None });
    t.add_assign(TableAttributes::new());
    assert_eq!(t.rename, Some(Rename::Pascal));
}

#[test]
fn items_split_over_attributes_read_as_one() {
    let one = vec![list("column", vec![flag("primary"), assign("name", lit("n")), assign("rename", lit("lower"))])];
    let two = vec![
        list("column", vec![flag("primary")]),
        list("column", vec![assign("name", lit("n")), assign("rename", lit("lower"))]),
    ];
    let t = TableAttributes::new();
    let a = column_attributes(&t, &one, 0).value;
    let b = column_attributes(&t, &two, 0).value;
    assert_eq!((a.primary, a.unique, a.ignore, a.name, a.rename), (b.primary, b.unique, b.ignore, b.name, b.rename));
}
