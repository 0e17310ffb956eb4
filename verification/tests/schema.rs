use squeel::attributes::{AttrError, AttrItem, AttrList, AttrValue};
use squeel::schema::{ColumnSet, DeriveInput, FieldInput, TableSchema};
use squeel::sqltype::{FieldType, TypeArg};

fn path(name: &str) -> FieldType {
    FieldType::Path { name: name.to_string(), args: None }
}

fn option(inner: FieldType) -> FieldType {
    FieldType::Path { name: "Option".to_string(), args: Some(vec![TypeArg::Type(inner)]) }
}

fn column(items: Vec<AttrItem>) -> AttrList {
    AttrList { name: "column".to_string(), items: Ok(items) }
}

fn flag(n: &str) -> AttrItem {
    AttrItem::Flag(n.to_string())
}

fn assign(n: &str, v: &str) -> AttrItem {
    AttrItem::Assign(n.to_string(), AttrValue::Str(v.to_string()))
}

fn foreign(t: &str, c: &str) -> AttrItem {
    AttrItem::Assign(
        "foreign".to_string(),
        AttrValue::Call { func: Some(t.to_string()), args: vec![Some(c.to_string())] },
    )
}

fn field(name: &str, ty: FieldType, attrs: Vec<AttrList>) -> FieldInput {
    FieldInput { ident: name.to_string(), ty, attrs }
}

fn manga() -> TableSchema {
    let p = TableSchema::derive(DeriveInput {
        ident: "Manga".to_string(),
        attrs: vec![],
        fields: Some(vec![
            field("id", path("u32"), vec![column(vec![flag("primary")])]),
            field("name", path("String"), vec![column(vec![flag("unique")])]),
            field("volumes", path("u32"), vec![]),
        ]),
    });
    assert!(!p.aborted && p.diagnostics.is_empty());
    p.value
}

fn volume() -> TableSchema {
    let p = TableSchema::derive(DeriveInput {
        ident: "Volume".to_string(),
        attrs: vec![],
        fields: Some(vec![
            field("id", path("u32"), vec![column(vec![flag("primary")])]),
            field("manga_id", path("u32"), vec![column(vec![foreign("Manga", "id")])]),
            field("name", path("String"), vec![column(vec![flag("unique")])]),
            field("read_state", path("ReadState"), vec![]),
            field("part", option(path("u32")), vec![]),
        ]),
    });
    assert!(!p.aborted && p.diagnostics.is_empty());
    p.value
}

fn renamed() -> TableSchema {
    let p = TableSchema::derive(DeriveInput {
        ident: "Test".to_string(),
        attrs: vec![AttrList {
            name: "table".to_string(),
            items: Ok(vec![assign("rename", "lower"), assign("rename_all", "UPPER")]),
        }],
        fields: Some(vec![
            field("id", path("u32"), vec![column(vec![flag("primary")])]),
            field("email", path("String"), vec![]),
            field("age", option(path("u32")), vec![]),
        ]),
    });
    assert!(!p.aborted && p.diagnostics.is_empty());
    p.value
}

#[test]
fn manga_statements() {
    let t = manga();
    assert_eq!(t.table_name, "Manga");
    assert_eq!(t.insert_sql(), "INSERT OR IGNORE INTO Manga (name, volumes) VALUES (?, ?) RETURNING id");
    assert_eq!(t.update_sql(), "INSERT INTO Manga (id, name, volumes) VALUES (?, ?, ?) RETURNING id");
    assert_eq!(t.delete_sql(), "DELETE FROM Manga WHERE id = ? RETURNING id");
    assert_eq!(
        t.scaffold(&vec![]),
        "CREATE TABLE IF NOT EXISTS Manga (id INTEGER PRIMARY KEY,name TEXT NOT NULL,volumes INTEGER NOT NULL,UNIQUE(name));"
    );
    assert_eq!(t.select_sql(&vec![false, false, false]), "SELECT * FROM Manga");
    assert_eq!(t.select_sql(&vec![false, true, false]), "SELECT * FROM Manga WHERE name = ?");
    assert_eq!(t.select_sql(&vec![true, false, true]), "SELECT * FROM Manga WHERE id = ? AND volumes = ?");
}

#[test]
fn volume_statements() {
    let t = volume();
    let keys = t.foreign_keys();
    assert_eq!(keys.len(), 1);
    assert_eq!((keys[0].column.as_str(), keys[0].table.as_str(), keys[0].references.as_str()), ("manga_id", "Manga", "id"));
    assert_eq!(
        t.scaffold(&vec![("Manga".to_string(), "id".to_string())]),
        "CREATE TABLE IF NOT EXISTS Volume (id INTEGER PRIMARY KEY,manga_id INTEGER NOT NULL,name TEXT NOT NULL,read_state TEXT NOT NULL,part INTEGER,UNIQUE(name),FOREIGN KEY (manga_id) REFERENCES Manga(id));"
    );
    assert_eq!(
        t.insert_sql(),
        "INSERT OR IGNORE INTO Volume (manga_id, name, read_state, part) VALUES (?, ?, ?, ?) RETURNING id,manga_id"
    );
    assert_eq!(t.delete_sql(), "DELETE FROM Volume WHERE id = ? AND manga_id = ? RETURNING id,manga_id");
    assert_eq!(t.positions(ColumnSet::Key), vec![0, 1]);
    assert_eq!(t.positions(ColumnSet::Inserted), vec![1, 2, 3, 4]);
    assert_eq!(t.columns(ColumnSet::Unique), vec!["name".to_string()]);
}

#[test]
fn renamed_table_and_columns() {
    let t = renamed();
    assert_eq!(t.struct_name, "Test");
    assert_eq!(t.table_name, "test");
    assert_eq!(t.insert_sql(), "INSERT INTO test (EMAIL, AGE) VALUES (?, ?) RETURNING ID");
    assert_eq!(
        t.scaffold(&vec![]),
        "CREATE TABLE IF NOT EXISTS Test (ID INTEGER PRIMARY KEY,EMAIL TEXT NOT NULL,AGE INTEGER);"
    );
    assert_eq!(t.column_name("email"), "EMAIL");
    assert_eq!(t.column_name("age"), "AGE");
    assert_eq!(t.column_name("unknown"), "unknown");
    assert_eq!(manga().column_name("name"), "name");
}

#[test]
fn a_table_without_keys_deletes_with_an_empty_condition() {
    let p = TableSchema::derive(DeriveInput {
        ident: "Parent".to_string(),
        attrs: vec![],
        fields: Some(vec![field("id", path("u32"), vec![])]),
    });
    let t = p.value;
    assert_eq!(t.delete_sql(), "DELETE FROM Parent WHERE ");
    assert_eq!(t.insert_sql(), "INSERT INTO Parent (id) VALUES (?)");
}

#[test]
fn ignored_fields_are_defined_but_not_stored() {
    let p = TableSchema::derive(DeriveInput {
        ident: "Cache".to_string(),
        attrs: vec![],
        fields: Some(vec![
            field("key", path("String"), vec![column(vec![flag("primary")])]),
            field("hits", path("u32"), vec![column(vec![flag("ignore"), flag("unique")])]),
        ]),
    });
    let t = p.value;
    assert_eq!(t.update_sql(), "INSERT INTO Cache (key) VALUES (?) RETURNING key");
    assert_eq!(t.scaffold(&vec![]), "CREATE TABLE IF NOT EXISTS Cache (key TEXT PRIMARY KEY,hits INTEGER NOT NULL);");
    assert_eq!(t.positions(ColumnSet::Stored), vec![0]);
}

#[test]
fn named_columns_and_table() {
    let p = TableSchema::derive(DeriveInput {
        ident: "Item".to_string(),
        attrs: vec![AttrList {
            name: "table".to_string(),
            items: Ok(vec![assign("name", "items table"), assign("rename", "snake_case")]),
        }],
        fields: Some(vec![field("x", path("f64"), vec![column(vec![assign("name", "posX"), assign("rename", "snake_case")])])]),
    });
    let t = p.value;
    assert_eq!(t.table_name, "items_table");
    assert_eq!(t.params[0].sql_name(), "pos_x");
    assert_eq!(t.params[0].column_definition(), "pos_x REAL NOT NULL");
    assert_eq!(t.column_name("x"), "pos_x");
    assert_eq!(t.update_sql(), "INSERT INTO items_table (pos_x) VALUES (?)");
}

#[test]
fn derive_reports_diagnostics_and_stops_on_fatal_ones() {
    let p = TableSchema::derive(DeriveInput {
        ident: "Bad".to_string(),
        attrs: vec![AttrList { name: "table".to_string(), items: Ok(vec![flag("oops")]) }],
        fields: Some(vec![
            field("a", path("u32"), vec![column(vec![assign("rename", "wrong")])]),
            field(
                "b",
                path("u32"),
                vec![column(vec![AttrItem::Assign(
                    "foreign".to_string(),
                    AttrValue::Call { func: None, args: vec![] },
                )])],
            ),
            field("c", path("u32"), vec![column(vec![assign("rename", "wrong")])]),
        ]),
    });
    assert!(p.aborted);
    let errs: Vec<(Option<usize>, AttrError)> = p.diagnostics.iter().map(|d| (d.field, d.error)).collect();
    assert_eq!(
        errs,
        vec![
            (None, AttrError::InvalidAttribute),
            (Some(0), AttrError::InvalidRename),
            (Some(1), AttrError::ExpectedTableIdentifier)
        ]
    );
}

#[test]
fn a_struct_without_named_fields_has_no_columns() {
    let p = TableSchema::derive(DeriveInput { ident: "Unit".to_string(), attrs: vec![], fields: None });
    assert!(p.value.params.is_empty());
    assert_eq!(p.value.update_sql(), "INSERT INTO Unit () VALUES ()");
    assert_eq!(p.value.scaffold(&vec![]), "CREATE TABLE IF NOT EXISTS Unit ();");
}

#[test]
fn each_statement_has_a_placeholder_per_bound_value() {
    for t in [manga(), volume(), renamed()] {
        let count = |s: String| s.matches('?').count();
        assert_eq!(count(t.insert_sql()), t.positions(ColumnSet::Inserted).len());
        assert_eq!(count(t.update_sql()), t.positions(ColumnSet::Stored).len());
        assert_eq!(count(t.delete_sql()), t.positions(ColumnSet::Key).len());
        let n = t.columns(ColumnSet::Stored).len();
        let present: Vec<bool> = (0..n).map(|i| i % 2 == 0).collect();
        assert_eq!(count(t.select_sql(&present)), present.iter().filter(|b| **b).count());
    }
}
