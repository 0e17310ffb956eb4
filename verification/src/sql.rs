//! The SQL statements of a table.

use vstd::prelude::*;
use crate::schema::{
    ColumnSet, TableSchema, column_names, foreign_keys, law_column_names_complete, param_views,
    spec_column_definition, spec_sql_name,
};
use crate::sqltype::sql_type_defined;
use crate::text::{
    join, join_strings, lemma_occurrences_join, lemma_occurs_between, lemma_occurs_in_join,
    lemma_prefix_of_concat, occurrences, occurs_in, views,
};

verus! {

/// `n` placeholders.
pub open spec fn qmarks(n: nat) -> Seq<Seq<char>> {
    Seq::new(n, |i: int| "?"@)
}

/// A condition `name = ?` for each name.
pub open spec fn conditions(names: Seq<Seq<char>>) -> Seq<Seq<char>> {
    names.map_values(|k: Seq<char>| k + " = ?"@)
}

/// The clause that returns the key columns, when there are any.
pub open spec fn returning(keys: Seq<Seq<char>>) -> Seq<char> {
    if keys.len() == 0 {
        Seq::empty()
    } else {
        " RETURNING "@ + join(keys, ","@)
    }
}

/// Inserts a row with the columns `cols`, skipping it when `or_ignore`
/// (the table has unique columns) and it would break a constraint.
pub open spec fn insert_statement(table: Seq<char>, cols: Seq<Seq<char>>, keys: Seq<Seq<char>>, or_ignore: bool) -> Seq<char> {
    "INSERT"@ + (if or_ignore {
        " OR IGNORE"@
    } else {
        Seq::empty()
    }) + " INTO "@ + table + " ("@ + join(cols, ", "@) + ") VALUES ("@ + join(qmarks(cols.len()), ", "@)
        + ")"@ + returning(keys)
}

/// Writes a row with all the stored columns `cols`.
pub open spec fn update_statement(table: Seq<char>, cols: Seq<Seq<char>>, keys: Seq<Seq<char>>) -> Seq<char> {
    "INSERT INTO "@ + table + " ("@ + join(cols, ", "@) + ") VALUES ("@ + join(qmarks(cols.len()), ", "@)
        + ")"@ + returning(keys)
}

/// Deletes the rows whose key columns match.
pub open spec fn delete_statement(table: Seq<char>, keys: Seq<Seq<char>>) -> Seq<char> {
    "DELETE FROM "@ + table + " WHERE "@ + join(conditions(keys), " AND "@) + returning(keys)
}

/// Selects the rows whose columns `filters` match.
pub open spec fn select_statement(table: Seq<char>, filters: Seq<Seq<char>>) -> Seq<char> {
    "SELECT * FROM "@ + table + (if filters.len() == 0 {
        Seq::empty()
    } else {
        " WHERE "@ + join(conditions(filters), " AND "@)
    })
}

/// The names whose flag in `present` is set, in order (`present` holds a
/// flag for each name).
pub open spec fn chosen(names: Seq<Seq<char>>, present: Seq<bool>) -> Seq<Seq<char>>
    decreases names.len(),
{
    if names.len() == 0 {
        Seq::empty()
    } else {
        let prev = chosen(names.drop_last(), present.drop_last());
        if present.last() {
            prev.push(names.last())
        } else {
            prev
        }
    }
}

/// The constraint of the foreign key on `column`.
pub open spec fn foreign_clause(column: Seq<char>, table: Seq<char>, references: Seq<char>) -> Seq<char> {
    "FOREIGN KEY ("@ + column + ") REFERENCES "@ + table + "("@ + references + ")"@
}

/// Creates the table `name` with the column definitions `defs`, the unique
/// columns `unique` and the foreign-key constraints `fks`.
pub open spec fn create_statement(name: Seq<char>, defs: Seq<Seq<char>>, unique: Seq<Seq<char>>, fks: Seq<Seq<char>>) -> Seq<char> {
    "CREATE TABLE IF NOT EXISTS "@ + name + " ("@ + join(defs, ","@) + (if unique.len() == 0 {
        Seq::empty()
    } else {
        ",UNIQUE("@ + join(unique, ","@) + ")"@
    }) + (if fks.len() == 0 {
        Seq::empty()
    } else {
        ","@ + join(fks, ","@)
    }) + ");"@
}

/// `n` placeholders separated by commas.
fn placeholders(n: usize) -> (r: String)
    ensures
        r@ == join(qmarks(n as nat), ", "@),
{
    let mut v: Vec<String> = Vec::new();
    let mut i: usize = 0;
    while i < n
        invariant
            i <= n,
            views(v@) =~= qmarks(i as nat),
        decreases n - i,
    {
        let q = String::from_str("?");
        let ghost before = views(v@);
        v.push(q);
        assert(views(v@) =~= before.push(q@));
        i += 1;
    }
    join_strings(&v, ", ")
}

fn conditions_of(names: &Vec<String>) -> (r: Vec<String>)
    ensures
        views(r@) == conditions(views(names@)),
{
    let mut r: Vec<String> = Vec::new();
    let n = names.len();
    let mut i: usize = 0;
    while i < n
        invariant
            n == names@.len(),
            i <= n,
            views(r@) =~= conditions(views(names@)).take(i as int),
        decreases n - i,
    {
        let c = String::from_str(names[i].as_str()).concat(" = ?");
        let ghost before = views(r@);
        r.push(c);
        assert(views(r@) =~= before.push(c@));
        i += 1;
    }
    r
}

fn returning_of(keys: &Vec<String>) -> (r: String)
    ensures
        r@ == returning(views(keys@)),
{
    if keys.len() == 0 {
        String::new()
    } else {
        String::from_str(" RETURNING ").concat(join_strings(keys, ",").as_str())
    }
}

/// The statement that selects the rows of `table` matching the columns of
/// `columns` whose flag in `present` is set.
pub fn select_for(table: &str, columns: &Vec<String>, present: &Vec<bool>) -> (r: String)
    requires
        present@.len() == columns@.len(),
    ensures
        r@ == select_statement(table@, chosen(views(columns@), present@)),
{
    let ghost names = views(columns@);
    let mut filters: Vec<String> = Vec::new();
    let n = columns.len();
    let mut i: usize = 0;
    assert(names.take(0) =~= Seq::<Seq<char>>::empty());
    while i < n
        invariant
            names == views(columns@),
            n == columns@.len(),
            n == present@.len(),
            i <= n,
            views(filters@) == chosen(names.take(i as int), present@.take(i as int)),
        decreases n - i,
    {
        assert(names.take(i + 1).drop_last() =~= names.take(i as int));
        assert(present@.take(i + 1).drop_last() =~= present@.take(i as int));
        if present[i] {
            let f = columns[i].clone();
            let ghost before = views(filters@);
            filters.push(f);
            assert(views(filters@) =~= before.push(f@));
        }
        i += 1;
    }
    assert(names.take(n as int) =~= names);
    assert(present@.take(n as int) =~= present@);
    let mut s = String::from_str("SELECT * FROM ");
    s.append(table);
    if filters.len() > 0 {
        s.append(" WHERE ");
        s.append(join_strings(&conditions_of(&filters), " AND ").as_str());
    }
    s
}

impl TableSchema {
    pub open spec fn names(&self, set: ColumnSet) -> Seq<Seq<char>> {
        column_names(self.spec_params(), set)
    }

    pub open spec fn spec_insert_sql(&self) -> Seq<char> {
        insert_statement(
            self.table_name@,
            self.names(ColumnSet::Inserted),
            self.names(ColumnSet::Key),
            self.names(ColumnSet::Unique).len() > 0,
        )
    }

    pub open spec fn spec_update_sql(&self) -> Seq<char> {
        update_statement(self.table_name@, self.names(ColumnSet::Stored), self.names(ColumnSet::Key))
    }

    pub open spec fn spec_delete_sql(&self) -> Seq<char> {
        delete_statement(self.table_name@, self.names(ColumnSet::Key))
    }

    pub open spec fn spec_select_sql(&self, present: Seq<bool>) -> Seq<char> {
        select_statement(self.table_name@, chosen(self.names(ColumnSet::Stored), present))
    }

    /// Every field's type has a storage class.
    pub open spec fn types_defined(&self) -> bool {
        forall|i: int| 0 <= i < self.params@.len() ==> sql_type_defined(#[trigger] self.params@[i].ty)
    }

    /// The `CREATE TABLE` statement, each foreign key referring to the table
    /// and column at its position in `refs`.
    pub open spec fn spec_scaffold(&self, refs: Seq<(Seq<char>, Seq<char>)>) -> Seq<char> {
        let fks = foreign_keys(self.spec_params());
        create_statement(
            self.struct_name@,
            self.spec_params().map_values(|p| spec_column_definition(p)),
            self.names(ColumnSet::Unique),
            Seq::new(fks.len(), |k: int| foreign_clause(fks[k].0, refs[k].0, refs[k].1)),
        )
    }

    /// The statement that inserts a row (`Table::insert`).
    pub fn insert_sql(&self) -> (r: String)
        ensures
            r@ == self.spec_insert_sql(),
            ("INSERT"@ + (if self.names(ColumnSet::Unique).len() > 0 {
                " OR IGNORE"@
            } else {
                Seq::empty()
            }) + " INTO "@ + self.table_name@ + " ("@).is_prefix_of(r@),
    {
        let cols = self.columns(ColumnSet::Inserted);
        let keys = self.columns(ColumnSet::Key);
        let unique = self.columns(ColumnSet::Unique);
        let mut s = String::from_str("INSERT");
        if unique.len() > 0 {
            s.append(" OR IGNORE");
        }
        s.append(" INTO ");
        s.append(self.table_name.as_str());
        s.append(" (");
        s.append(join_strings(&cols, ", ").as_str());
        s.append(") VALUES (");
        s.append(placeholders(cols.len()).as_str());
        s.append(")");
        s.append(returning_of(&keys).as_str());
        proof {
            law_insert_names_table(*self);
        }
        s
    }

    /// The statement that writes a row with every stored column (`Table::update`).
    pub fn update_sql(&self) -> (r: String)
        ensures
            r@ == self.spec_update_sql(),
            ("INSERT INTO "@ + self.table_name@ + " ("@).is_prefix_of(r@),
    {
        let cols = self.columns(ColumnSet::Stored);
        let keys = self.columns(ColumnSet::Key);
        let mut s = String::from_str("INSERT INTO ");
        s.append(self.table_name.as_str());
        s.append(" (");
        s.append(join_strings(&cols, ", ").as_str());
        s.append(") VALUES (");
        s.append(placeholders(cols.len()).as_str());
        s.append(")");
        s.append(returning_of(&keys).as_str());
        proof {
            law_update_names_table(*self);
        }
        s
    }

    /// The statement that deletes a row by its keys (`Table::delete`).
    pub fn delete_sql(&self) -> (r: String)
        ensures
            r@ == self.spec_delete_sql(),
            ("DELETE FROM "@ + self.table_name@ + " WHERE "@).is_prefix_of(r@),
    {
        let keys = self.columns(ColumnSet::Key);
        let mut s = String::from_str("DELETE FROM ");
        s.append(self.table_name.as_str());
        s.append(" WHERE ");
        s.append(join_strings(&conditions_of(&keys), " AND ").as_str());
        s.append(returning_of(&keys).as_str());
        proof {
            law_delete_names_table(*self);
        }
        s
    }

    /// The statement that selects the rows matching the stored columns whose
    /// flag in `present` is set (`Table::one` and `Table::many`).
    pub fn select_sql(&self, present: &Vec<bool>) -> (r: String)
        requires
            present@.len() == self.names(ColumnSet::Stored).len(),
        ensures
            r@ == self.spec_select_sql(present@),
            ("SELECT * FROM "@ + self.table_name@).is_prefix_of(r@),
    {
        let cols = self.columns(ColumnSet::Stored);
        let r = select_for(self.table_name.as_str(), &cols, present);
        proof {
            law_select_names_table(*self, present@);
            let head = "SELECT * FROM "@ + self.table_name@;
            if r@ == head {
                lemma_prefix_of_concat(head, Seq::empty());
                assert(head + Seq::<char>::empty() =~= head);
            } else {
                lemma_prefix_of_concat(head, " WHERE "@);
            }
        }
        r
    }

    /// The `CREATE TABLE` statement (`Table::scaffold`), each foreign key
    /// referring to the table and column at its position in `refs`.
    pub fn scaffold(&self, refs: &Vec<(String, String)>) -> (r: String)
        requires
            self.types_defined(),
            refs@.len() == foreign_keys(self.spec_params()).len(),
        ensures
            r@ == self.spec_scaffold(refs@.map_values(|x: (String, String)| (x.0@, x.1@))),
            self.names(ColumnSet::Unique).len() > 0 ==> occurs_in(
                ",UNIQUE("@ + join(self.names(ColumnSet::Unique), ","@) + ")"@,
                r@,
            ),
            ("CREATE TABLE IF NOT EXISTS "@ + self.struct_name@ + " ("@).is_prefix_of(r@),
    {
        let ghost ps = self.spec_params();
        let mut defs: Vec<String> = Vec::new();
        let n = self.params.len();
        let mut i: usize = 0;
        while i < n
            invariant
                n == self.params@.len(),
                ps == self.spec_params(),
                self.types_defined(),
                i <= n,
                views(defs@) =~= ps.map_values(|p| spec_column_definition(p)).take(i as int),
            decreases n - i,
        {
            assert(sql_type_defined(self.params@[i as int].ty));
            let d = self.params[i].column_definition();
            let ghost before = views(defs@);
            defs.push(d);
            assert(views(defs@) =~= before.push(d@));
            i += 1;
        }
        assert(ps.map_values(|p| spec_column_definition(p)).take(n as int) =~= ps.map_values(|p| spec_column_definition(p)));
        let unique = self.columns(ColumnSet::Unique);
        let keys = self.foreign_keys();
        let ghost fks = foreign_keys(ps);
        let ghost rs = refs@.map_values(|x: (String, String)| (x.0@, x.1@));
        let mut clauses: Vec<String> = Vec::new();
        let m = keys.len();
        let mut k: usize = 0;
        while k < m
            invariant
                m == keys@.len(),
                m == refs@.len(),
                keys@.map_values(|k: crate::schema::ForeignKey| (k.column@, k.table@, k.references@)) == fks,
                rs == refs@.map_values(|x: (String, String)| (x.0@, x.1@)),
                k <= m,
                views(clauses@) =~= Seq::new(fks.len(), |j: int| foreign_clause(fks[j].0, rs[j].0, rs[j].1)).take(k as int),
            decreases m - k,
        {
            let key = &keys[k];
            let (t, c) = &refs[k];
            assert(fks[k as int] == (key.column@, key.table@, key.references@));
            let mut clause = String::from_str("FOREIGN KEY (");
            clause.append(key.column.as_str());
            clause.append(") REFERENCES ");
            clause.append(t.as_str());
            clause.append("(");
            clause.append(c.as_str());
            clause.append(")");
            let ghost before = views(clauses@);
            clauses.push(clause);
            assert(views(clauses@) =~= before.push(clause@));
            k += 1;
        }
        assert(fks.len() == m);
        assert(Seq::new(fks.len(), |j: int| foreign_clause(fks[j].0, rs[j].0, rs[j].1)).take(m as int) =~= Seq::new(fks.len(), |j: int| foreign_clause(fks[j].0, rs[j].0, rs[j].1)));
        let mut s = String::from_str("CREATE TABLE IF NOT EXISTS ");
        s.append(self.struct_name.as_str());
        s.append(" (");
        s.append(join_strings(&defs, ",").as_str());
        if unique.len() > 0 {
            s.append(",UNIQUE(");
            s.append(join_strings(&unique, ",").as_str());
            s.append(")");
        }
        if clauses.len() > 0 {
            s.append(",");
            s.append(join_strings(&clauses, ",").as_str());
        }
        s.append(");");
        proof {
            let rs = refs@.map_values(|x: (String, String)| (x.0@, x.1@));
            let unique = self.names(ColumnSet::Unique);
            assert(s@ == self.spec_scaffold(rs));
            assert(unique.len() > 0 ==> occurs_in(",UNIQUE("@ + join(unique, ","@) + ")"@, s@)) by {
                law_scaffold_unique(*self, rs);
            }
            assert(("CREATE TABLE IF NOT EXISTS "@ + self.struct_name@ + " ("@).is_prefix_of(s@)) by {
                law_scaffold_names_struct(*self, rs);
                let head = "CREATE TABLE IF NOT EXISTS "@ + self.struct_name@ + " ("@;
                let defs = join(self.spec_params().map_values(|p| spec_column_definition(p)), ","@);
                assert((head + defs).subrange(0, head.len() as int) =~= head);
            }
        }
        s
    }
}

proof fn lemma_literal_free(s: Seq<char>)
    requires
        forall|i: int| 0 <= i < s.len() ==> s[i] != '?',
    ensures
        occurrences(s, '?') == 0,
    decreases s.len(),
{
    if s.len() > 0 {
        let d = s.drop_last();
        assert forall|i: int| 0 <= i < d.len() implies d[i] != '?' by {
            assert(d[i] == s[i]);
        }
        lemma_literal_free(d);
    }
}

proof fn lemma_literal_one(s: Seq<char>)
    requires
        s.len() > 0,
        s.last() == '?',
        forall|i: int| 0 <= i < s.len() - 1 ==> s[i] != '?',
    ensures
        occurrences(s, '?') == 1,
{
    let d = s.drop_last();
    assert forall|i: int| 0 <= i < d.len() implies d[i] != '?' by {
        assert(d[i] == s[i]);
    }
    lemma_literal_free(d);
}

/// The text of the statements holds no `?` but the placeholders.
proof fn lemma_literals()
    ensures
        occurrences("INSERT"@, '?') == 0,
        occurrences(" OR IGNORE"@, '?') == 0,
        occurrences(" INTO "@, '?') == 0,
        occurrences(" ("@, '?') == 0,
        occurrences(", "@, '?') == 0,
        occurrences(") VALUES ("@, '?') == 0,
        occurrences(")"@, '?') == 0,
        occurrences(" RETURNING "@, '?') == 0,
        occurrences(","@, '?') == 0,
        occurrences("INSERT INTO "@, '?') == 0,
        occurrences("DELETE FROM "@, '?') == 0,
        occurrences(" WHERE "@, '?') == 0,
        occurrences(" AND "@, '?') == 0,
        occurrences("SELECT * FROM "@, '?') == 0,
        occurrences(Seq::<char>::empty(), '?') == 0,
        occurrences("?"@, '?') == 1,
        occurrences(" = ?"@, '?') == 1,
{
    reveal_strlit("INSERT");
    lemma_literal_free("INSERT"@);
    reveal_strlit(" OR IGNORE");
    lemma_literal_free(" OR IGNORE"@);
    reveal_strlit(" INTO ");
    lemma_literal_free(" INTO "@);
    reveal_strlit(" (");
    lemma_literal_free(" ("@);
    reveal_strlit(", ");
    lemma_literal_free(", "@);
    reveal_strlit(") VALUES (");
    lemma_literal_free(") VALUES ("@);
    reveal_strlit(")");
    lemma_literal_free(")"@);
    reveal_strlit(" RETURNING ");
    lemma_literal_free(" RETURNING "@);
    reveal_strlit(",");
    lemma_literal_free(","@);
    reveal_strlit("INSERT INTO ");
    lemma_literal_free("INSERT INTO "@);
    reveal_strlit("DELETE FROM ");
    lemma_literal_free("DELETE FROM "@);
    reveal_strlit(" WHERE ");
    lemma_literal_free(" WHERE "@);
    reveal_strlit(" AND ");
    lemma_literal_free(" AND "@);
    reveal_strlit("SELECT * FROM ");
    lemma_literal_free("SELECT * FROM "@);
    lemma_literal_free(Seq::<char>::empty());
    reveal_strlit("?");
    lemma_literal_one("?"@);
    reveal_strlit(" = ?");
    lemma_literal_one(" = ?"@);
}

/// No name holds a `?`.
pub open spec fn names_free(names: Seq<Seq<char>>) -> bool {
    forall|i: int| 0 <= i < names.len() ==> occurrences(#[trigger] names[i], '?') == 0
}

proof fn lemma_returning_free(keys: Seq<Seq<char>>)
    requires
        names_free(keys),
    ensures
        occurrences(returning(keys), '?') == 0,
{
    broadcast use crate::text::lemma_occurrences_concat;
    lemma_literals();
    lemma_occurrences_join(keys, ","@, '?', 0);
}

proof fn lemma_placeholders_count(n: nat)
    ensures
        occurrences(join(qmarks(n), ", "@), '?') == n,
{
    lemma_literals();
    lemma_occurrences_join(qmarks(n), ", "@, '?', 1);
}

proof fn lemma_conditions_count(names: Seq<Seq<char>>, sep: Seq<char>)
    requires
        names_free(names),
        occurrences(sep, '?') == 0,
    ensures
        occurrences(join(conditions(names), sep), '?') == names.len(),
{
    broadcast use crate::text::lemma_occurrences_concat;
    lemma_literals();
    assert forall|i: int| 0 <= i < conditions(names).len() implies occurrences(#[trigger] conditions(names)[i], '?') == 1 by {
        assert(conditions(names)[i] == names[i] + " = ?"@);
    }
    lemma_occurrences_join(conditions(names), sep, '?', 1);
}

/// The insertion has one placeholder for each inserted column, the names
/// holding no `?`.
pub proof fn law_insert_placeholders(table: Seq<char>, cols: Seq<Seq<char>>, keys: Seq<Seq<char>>, or_ignore: bool)
    requires
        occurrences(table, '?') == 0,
        names_free(cols),
        names_free(keys),
    ensures
        occurrences(insert_statement(table, cols, keys, or_ignore), '?') == cols.len(),
{
    broadcast use crate::text::lemma_occurrences_concat;
    lemma_literals();
    lemma_occurrences_join(cols, ", "@, '?', 0);
    lemma_placeholders_count(cols.len());
    lemma_returning_free(keys);
}

/// The full write has one placeholder for each stored column, the names
/// holding no `?`.
pub proof fn law_update_placeholders(table: Seq<char>, cols: Seq<Seq<char>>, keys: Seq<Seq<char>>)
    requires
        occurrences(table, '?') == 0,
        names_free(cols),
        names_free(keys),
    ensures
        occurrences(update_statement(table, cols, keys), '?') == cols.len(),
{
    broadcast use crate::text::lemma_occurrences_concat;
    lemma_literals();
    lemma_occurrences_join(cols, ", "@, '?', 0);
    lemma_placeholders_count(cols.len());
    lemma_returning_free(keys);
}

/// The deletion has one placeholder for each key column, the names holding
/// no `?`.
pub proof fn law_delete_placeholders(table: Seq<char>, keys: Seq<Seq<char>>)
    requires
        occurrences(table, '?') == 0,
        names_free(keys),
    ensures
        occurrences(delete_statement(table, keys), '?') == keys.len(),
{
    broadcast use crate::text::lemma_occurrences_concat;
    lemma_literals();
    lemma_conditions_count(keys, " AND "@);
    lemma_returning_free(keys);
}

/// The selection has one placeholder for each filter, the names holding no `?`.
pub proof fn law_select_placeholders(table: Seq<char>, filters: Seq<Seq<char>>)
    requires
        occurrences(table, '?') == 0,
        names_free(filters),
    ensures
        occurrences(select_statement(table, filters), '?') == filters.len(),
{
    broadcast use crate::text::lemma_occurrences_concat;
    lemma_literals();
    if filters.len() > 0 {
        lemma_conditions_count(filters, " AND "@);
    }
}

/// The insertion inserts into the table's name (skipping the row that would
/// break a unique constraint when the table has unique columns).
pub proof fn law_insert_names_table(t: TableSchema)
    ensures
        ("INSERT"@ + (if t.names(ColumnSet::Unique).len() > 0 {
            " OR IGNORE"@
        } else {
            Seq::empty()
        }) + " INTO "@ + t.table_name@ + " ("@).is_prefix_of(t.spec_insert_sql()),
{
    let cols = t.names(ColumnSet::Inserted);
    let head = "INSERT"@ + (if t.names(ColumnSet::Unique).len() > 0 {
        " OR IGNORE"@
    } else {
        Seq::empty()
    }) + " INTO "@ + t.table_name@ + " ("@;
    let tail = join(cols, ", "@) + ") VALUES ("@ + join(qmarks(cols.len()), ", "@) + ")"@ + returning(
        t.names(ColumnSet::Key),
    );
    assert(t.spec_insert_sql() =~= head + tail);
    lemma_prefix_of_concat(head, tail);
}

/// The full write inserts into the table's name.
pub proof fn law_update_names_table(t: TableSchema)
    ensures
        ("INSERT INTO "@ + t.table_name@ + " ("@).is_prefix_of(t.spec_update_sql()),
{
    let cols = t.names(ColumnSet::Stored);
    let head = "INSERT INTO "@ + t.table_name@ + " ("@;
    let tail = join(cols, ", "@) + ") VALUES ("@ + join(qmarks(cols.len()), ", "@) + ")"@ + returning(
        t.names(ColumnSet::Key),
    );
    assert(t.spec_update_sql() =~= head + tail);
    lemma_prefix_of_concat(head, tail);
}

/// The deletion deletes from the table's name.
pub proof fn law_delete_names_table(t: TableSchema)
    ensures
        ("DELETE FROM "@ + t.table_name@ + " WHERE "@).is_prefix_of(t.spec_delete_sql()),
{
    let keys = t.names(ColumnSet::Key);
    let head = "DELETE FROM "@ + t.table_name@ + " WHERE "@;
    let tail = join(conditions(keys), " AND "@) + returning(keys);
    assert(t.spec_delete_sql() =~= head + tail);
    lemma_prefix_of_concat(head, tail);
}

/// The selection selects from the table's name, with a `WHERE` clause
/// exactly when some column is chosen.
pub proof fn law_select_names_table(t: TableSchema, present: Seq<bool>)
    ensures
        chosen(t.names(ColumnSet::Stored), present).len() == 0 ==> t.spec_select_sql(present) == "SELECT * FROM "@
            + t.table_name@,
        chosen(t.names(ColumnSet::Stored), present).len() > 0 ==> ("SELECT * FROM "@ + t.table_name@
            + " WHERE "@).is_prefix_of(t.spec_select_sql(present)),
{
    let filters = chosen(t.names(ColumnSet::Stored), present);
    let head = "SELECT * FROM "@ + t.table_name@;
    if filters.len() == 0 {
        assert(t.spec_select_sql(present) =~= head);
    } else {
        let tail = join(conditions(filters), " AND "@);
        assert(t.spec_select_sql(present) =~= head + " WHERE "@ + tail);
        lemma_prefix_of_concat(head + " WHERE "@, tail);
    }
}

/// The `CREATE TABLE` statement holds one `UNIQUE` constraint listing every
/// unique column, joined by commas, when there are any; the column of each
/// stored field declared unique stands in that list.
pub proof fn law_scaffold_unique(t: TableSchema, refs: Seq<(Seq<char>, Seq<char>)>)
    ensures
        t.names(ColumnSet::Unique).len() > 0 ==> occurs_in(
            ",UNIQUE("@ + join(t.names(ColumnSet::Unique), ","@) + ")"@,
            t.spec_scaffold(refs),
        ),
        forall|i: int|
            0 <= i < t.spec_params().len() && !(#[trigger] t.spec_params()[i]).ignore && t.spec_params()[i].unique
                ==> occurs_in(spec_sql_name(t.spec_params()[i]), join(t.names(ColumnSet::Unique), ","@)),
{
    let ps = t.spec_params();
    let unique = t.names(ColumnSet::Unique);
    let fks = foreign_keys(ps);
    let defs = ps.map_values(|p| spec_column_definition(p));
    let clauses = Seq::new(fks.len(), |k: int| foreign_clause(fks[k].0, refs[k].0, refs[k].1));
    if unique.len() > 0 {
        let pre = "CREATE TABLE IF NOT EXISTS "@ + t.struct_name@ + " ("@ + join(defs, ","@);
        let clause = ",UNIQUE("@ + join(unique, ","@) + ")"@;
        let post = (if clauses.len() == 0 {
            Seq::empty()
        } else {
            ","@ + join(clauses, ","@)
        }) + ");"@;
        assert(t.spec_scaffold(refs) =~= pre + clause + post);
        lemma_occurs_between(pre, clause, post);
    }
    assert forall|i: int|
        0 <= i < ps.len() && !(#[trigger] ps[i]).ignore && ps[i].unique implies occurs_in(
        spec_sql_name(ps[i]),
        join(unique, ","@),
    ) by {
        law_column_names_complete(ps, ColumnSet::Unique, i);
        let k = choose|k: int| 0 <= k < unique.len() && #[trigger] unique[k] == spec_sql_name(ps[i]);
        lemma_occurs_in_join(unique, ","@, k);
    }
}

/// The `CREATE TABLE` statement creates the table named as the struct, its
/// column definitions first, and ends the statement.
pub proof fn law_scaffold_names_struct(t: TableSchema, refs: Seq<(Seq<char>, Seq<char>)>)
    ensures
        ("CREATE TABLE IF NOT EXISTS "@ + t.struct_name@ + " ("@ + join(
            t.spec_params().map_values(|p| spec_column_definition(p)),
            ","@,
        )).is_prefix_of(t.spec_scaffold(refs)),
        ");"@.is_suffix_of(t.spec_scaffold(refs)),
{
    let head = "CREATE TABLE IF NOT EXISTS "@ + t.struct_name@ + " ("@ + join(
        t.spec_params().map_values(|p| spec_column_definition(p)),
        ","@,
    );
    let sql = t.spec_scaffold(refs);
    assert(sql.subrange(0, head.len() as int) =~= head);
    reveal_strlit(");");
    let end = ");"@;
    assert(sql.subrange(sql.len() - end.len(), sql.len() as int) =~= end);
}

} // verus!
