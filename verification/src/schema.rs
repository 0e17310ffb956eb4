//! A table's columns, read from a struct's fields and attributes.

use vstd::prelude::*;
use crate::attributes::{
    AttrList, ColumnAttributesView, Diagnostic, Parsed, ScanView, TableAttributes,
    TableAttributesView, column_attributes, diag_views, spec_column_attributes,
    spec_table_attributes, table_attributes,
};
use crate::rename::Rename;
use crate::text::str_eq;
use crate::sqltype::{FieldType, optional, spec_optional, spec_type_to_sql, sql_type_defined, type_to_sql};

verus! {

/// A named field of the struct: its name, its type, and those of its
/// attributes that are written as lists.
pub struct FieldInput {
    pub ident: String,
    pub ty: FieldType,
    pub attrs: Vec<AttrList>,
}

/// The item a table is derived for: its name, its attributes written as
/// lists, and its fields when they are named (`None` for a tuple or unit
/// struct, an enum or a union).
pub struct DeriveInput {
    pub ident: String,
    pub attrs: Vec<AttrList>,
    pub fields: Option<Vec<FieldInput>>,
}

/// A field together with its column settings.
pub struct Parameter {
    pub ty: FieldType,
    pub ident: String,
    pub ignore: bool,
    pub optional: bool,
    pub name: Option<String>,
    pub rename: Option<Rename>,
    pub primary: bool,
    pub foreign: Option<(String, String)>,
    pub unique: bool,
}

pub struct ParameterView {
    pub ty: FieldType,
    pub ident: Seq<char>,
    pub ignore: bool,
    pub optional: bool,
    pub name: Option<Seq<char>>,
    pub rename: Option<Rename>,
    pub primary: bool,
    pub foreign: Option<(Seq<char>, Seq<char>)>,
    pub unique: bool,
}

impl View for Parameter {
    type V = ParameterView;

    open spec fn view(&self) -> ParameterView {
        ParameterView {
            ty: self.ty,
            ident: self.ident@,
            ignore: self.ignore,
            optional: self.optional,
            name: crate::attributes::opt_view(self.name),
            rename: self.rename,
            primary: self.primary,
            foreign: crate::attributes::foreign_view(self.foreign),
            unique: self.unique,
        }
    }
}

pub open spec fn param_views(ps: Seq<Parameter>) -> Seq<ParameterView> {
    ps.map_values(|p: Parameter| p@)
}

/// The field `f` with the column settings `a`.
pub open spec fn param_of(f: FieldInput, a: ColumnAttributesView) -> ParameterView {
    ParameterView {
        ty: f.ty,
        ident: f.ident@,
        ignore: a.ignore,
        optional: spec_optional(f.ty),
        name: a.name,
        rename: a.rename,
        primary: a.primary,
        foreign: a.foreign,
        unique: a.unique,
    }
}

/// The column's name: the `name` setting, else the field's name, rewritten
/// in the `rename` convention when there is one.
pub open spec fn spec_sql_name(p: ParameterView) -> Seq<char> {
    let base = match p.name {
        Some(n) => n,
        None => p.ident,
    };
    match p.rename {
        Some(r) => r.spec_apply(base),
        None => base,
    }
}

/// The column's definition in `CREATE TABLE`: its name, its storage class,
/// `PRIMARY KEY` for the primary key, and `NOT NULL` for any other column
/// that may not be absent.
pub open spec fn spec_column_definition(p: ParameterView) -> Seq<char> {
    spec_sql_name(p) + " "@ + spec_type_to_sql(p.ty).spec_keyword() + (if p.primary {
        " PRIMARY KEY"@
    } else {
        Seq::empty()
    }) + (if !p.primary && !p.optional {
        " NOT NULL"@
    } else {
        Seq::empty()
    })
}

impl Parameter {
    /// The column's name.
    pub fn sql_name(&self) -> (r: String)
        ensures
            r@ == spec_sql_name(self@),
            self@.rename is None ==> (self@.name matches Some(n) ==> r@ == n),
            self@.rename is None && self@.name is None ==> r@ == self@.ident,
    {
        let base: &str = match &self.name {
            Some(n) => n.as_str(),
            None => self.ident.as_str(),
        };
        match self.rename {
            Some(r) => r.apply(base),
            None => String::from_str(base),
        }
    }

    /// The column's definition in `CREATE TABLE`.
    pub fn column_definition(&self) -> (r: String)
        requires
            sql_type_defined(self.ty),
        ensures
            r@ == spec_column_definition(self@),
    {
        let mut s = self.sql_name();
        s.append(" ");
        s.append(type_to_sql(&self.ty).keyword());
        if self.primary {
            s.append(" PRIMARY KEY");
        }
        if !self.primary && !self.optional {
            s.append(" NOT NULL");
        }
        s
    }
}

/// Reads the fields in order, each with its attributes and the struct's
/// settings `table`, and stops after the first fatal error.
pub open spec fn scan_parameters(fields: Seq<FieldInput>, table: TableAttributesView) -> ScanView<Seq<ParameterView>>
    decreases fields.len(),
{
    if fields.len() == 0 {
        ScanView { value: Seq::empty(), diags: Seq::empty(), aborted: false }
    } else {
        let prev = scan_parameters(fields.drop_last(), table);
        if prev.aborted {
            prev
        } else {
            let i = fields.len() - 1;
            let c = spec_column_attributes(table, fields[i].attrs@, i as usize);
            ScanView {
                value: prev.value.push(param_of(fields[i], c.value)),
                diags: prev.diags + c.diags,
                aborted: c.aborted,
            }
        }
    }
}

proof fn lemma_parameters_stop(fields: Seq<FieldInput>, table: TableAttributesView, k: int)
    requires
        0 <= k <= fields.len(),
        scan_parameters(fields.take(k), table).aborted,
    ensures
        scan_parameters(fields, table) == scan_parameters(fields.take(k), table),
    decreases fields.len(),
{
    if k == fields.len() {
        assert(fields.take(k) =~= fields);
    } else {
        let d = fields.drop_last();
        assert(d.take(k) =~= fields.take(k));
        lemma_parameters_stop(d, table, k);
    }
}

/// The fields' columns; a struct without named fields has none.
pub open spec fn spec_parse_parameters(fields: Option<Vec<FieldInput>>, table: TableAttributesView) -> ScanView<Seq<ParameterView>> {
    match fields {
        Some(f) => scan_parameters(f@, table),
        None => ScanView { value: Seq::empty(), diags: Seq::empty(), aborted: false },
    }
}

/// Reads the fields' columns.
pub fn parse_parameters(fields: Option<Vec<FieldInput>>, table: &TableAttributes) -> (r: Parsed<Vec<Parameter>>)
    ensures
        ({
            let s = spec_parse_parameters(fields, table@);
            &&& param_views(r.value@) == s.value
            &&& diag_views(r.diagnostics@) == s.diags
            &&& r.aborted == s.aborted
        }),
{
    let mut params: Vec<Parameter> = Vec::new();
    let mut diagnostics: Vec<Diagnostic> = Vec::new();
    let mut aborted = false;
    let mut fields = match fields {
        Some(f) => f,
        None => {
            assert(param_views(params@) =~= Seq::<ParameterView>::empty());
            assert(diag_views(diagnostics@) =~= Seq::<crate::attributes::DiagnosticView>::empty());
            return Parsed { value: params, diagnostics, aborted };
        },
    };
    let ghost all = fields@;
    let n = fields.len();
    let mut i: usize = 0;
    assert(all.take(0) =~= Seq::<FieldInput>::empty());
    assert(all.skip(0) =~= all);
    assert(param_views(params@) =~= Seq::<ParameterView>::empty());
    assert(diag_views(diagnostics@) =~= Seq::<crate::attributes::DiagnosticView>::empty());
    while i < n && !aborted
        invariant
            n == all.len(),
            i <= n,
            fields@ == all.skip(i as int),
            ({
                let s = scan_parameters(all.take(i as int), table@);
                &&& param_views(params@) == s.value
                &&& diag_views(diagnostics@) == s.diags
                &&& aborted == s.aborted
            }),
            aborted ==> scan_parameters(all, table@) == scan_parameters(all.take(i as int), table@),
        decreases n - i,
    {
        assert(all.take(i + 1).drop_last() =~= all.take(i as int));
        assert(all.take(i + 1).last() == all[i as int]);
        let f = fields.remove(0);
        assert(fields@ =~= all.skip(i + 1));
        let c = column_attributes(table, &f.attrs, i);
        let opt = optional(&f.ty);
        let a = c.value;
        let p = Parameter {
            ty: f.ty,
            ident: f.ident,
            ignore: a.ignore,
            optional: opt,
            name: a.name,
            rename: a.rename,
            primary: a.primary,
            foreign: a.foreign,
            unique: a.unique,
        };
        let ghost before_p = param_views(params@);
        params.push(p);
        assert(param_views(params@) =~= before_p.push(p@));
        let ghost before = diag_views(diagnostics@);
        let ghost added = diag_views(c.diagnostics@);
        let mut more = c.diagnostics;
        diagnostics.append(&mut more);
        assert(diag_views(diagnostics@) =~= before + added);
        aborted = c.aborted;
        i += 1;
        proof {
            if aborted {
                lemma_parameters_stop(all, table@, i as int);
            }
        }
    }
    if !aborted {
        assert(all.take(n as int) =~= all);
    }
    Parsed { value: params, diagnostics, aborted }
}

/// A table: the name of the struct it is derived for, its name in the
/// database, and its fields with their column settings, in order.
pub struct TableSchema {
    pub struct_name: String,
    pub table_name: String,
    pub params: Vec<Parameter>,
}

/// The table's name: the struct's `name` setting, else the struct's name,
/// rewritten in the struct's `rename` convention when there is one.
pub open spec fn spec_table_name(ident: Seq<char>, t: TableAttributesView) -> Seq<char> {
    let base = match t.name {
        Some(n) => n,
        None => ident,
    };
    match t.rename {
        Some(r) => r.spec_apply(base),
        None => base,
    }
}

/// What deriving a table for `input` reads: the struct's settings first,
/// then the fields'.
pub open spec fn spec_derive_scan(input: DeriveInput) -> (ScanView<TableAttributesView>, ScanView<Seq<ParameterView>>) {
    let t = spec_table_attributes(input.attrs@);
    (t, spec_parse_parameters(input.fields, t.value))
}

impl TableSchema {
    /// Reads the table described by `input`, with the diagnostics its
    /// attributes raise; `aborted` tells that a fatal one stopped the reading.
    pub fn derive(input: DeriveInput) -> (r: Parsed<TableSchema>)
        ensures
            ({
                let (t, p) = spec_derive_scan(input);
                &&& r.value.struct_name@ == input.ident@
                &&& r.value.table_name@ == spec_table_name(input.ident@, t.value)
                &&& t.value.rename is None ==> (t.value.name matches Some(n) ==> r.value.table_name@ == n)
                &&& param_views(r.value.params@) == p.value
                &&& diag_views(r.diagnostics@) == t.diags + p.diags
                &&& r.aborted == p.aborted
            }),
    {
        let t = table_attributes(&input.attrs);
        let attrs = t.value;
        let struct_name = input.ident.clone();
        let base: &str = match &attrs.name {
            Some(n) => n.as_str(),
            None => input.ident.as_str(),
        };
        let table_name = match attrs.rename {
            Some(r) => r.apply(base),
            None => String::from_str(base),
        };
        let p = parse_parameters(input.fields, &attrs);
        let mut diagnostics = t.diagnostics;
        let ghost before = diag_views(diagnostics@);
        let ghost added = diag_views(p.diagnostics@);
        let mut more = p.diagnostics;
        diagnostics.append(&mut more);
        assert(diag_views(diagnostics@) =~= before + added);
        Parsed {
            value: TableSchema { struct_name, table_name, params: p.value },
            diagnostics,
            aborted: p.aborted,
        }
    }
}

/// A kind of column that a statement lists.
#[derive(Clone, Copy, Debug, PartialEq, Eq, Structural)]
pub enum ColumnSet {
    /// The columns given on insertion: the stored ones but the primary key.
    Inserted,
    /// The columns stored: the fields not ignored.
    Stored,
    /// The key columns, which a deletion matches and insertions return: the
    /// stored primary key and foreign keys.
    Key,
    /// The stored columns declared unique.
    Unique,
}

impl ColumnSet {
    pub open spec fn keeps(self, p: ParameterView) -> bool {
        !p.ignore && match self {
            ColumnSet::Inserted => !p.primary,
            ColumnSet::Stored => true,
            ColumnSet::Key => p.primary || p.foreign is Some,
            ColumnSet::Unique => p.unique,
        }
    }

    fn keeps_exec(&self, p: &Parameter) -> (r: bool)
        ensures
            r == self.keeps(p@),
    {
        !p.ignore && match self {
            ColumnSet::Inserted => !p.primary,
            ColumnSet::Stored => true,
            ColumnSet::Key => p.primary || p.foreign.is_some(),
            ColumnSet::Unique => p.unique,
        }
    }
}

/// The names of the columns of `set`, in field order.
pub open spec fn column_names(ps: Seq<ParameterView>, set: ColumnSet) -> Seq<Seq<char>>
    decreases ps.len(),
{
    if ps.len() == 0 {
        Seq::empty()
    } else {
        let prev = column_names(ps.drop_last(), set);
        if set.keeps(ps.last()) {
            prev.push(spec_sql_name(ps.last()))
        } else {
            prev
        }
    }
}

/// The positions of the fields of the columns of `set`, in order.
pub open spec fn field_positions(ps: Seq<ParameterView>, set: ColumnSet) -> Seq<usize>
    decreases ps.len(),
{
    if ps.len() == 0 {
        Seq::empty()
    } else {
        let prev = field_positions(ps.drop_last(), set);
        if set.keeps(ps.last()) {
            prev.push((ps.len() - 1) as usize)
        } else {
            prev
        }
    }
}

/// A foreign key: the column, the table it refers to and the column there.
pub struct ForeignKey {
    pub column: String,
    pub table: String,
    pub references: String,
}

/// The stored columns with a foreign key, in field order, each with the
/// table and column it refers to.
pub open spec fn foreign_keys(ps: Seq<ParameterView>) -> Seq<(Seq<char>, Seq<char>, Seq<char>)>
    decreases ps.len(),
{
    if ps.len() == 0 {
        Seq::empty()
    } else {
        let prev = foreign_keys(ps.drop_last());
        let p = ps.last();
        match p.foreign {
            Some((t, c)) => if !p.ignore {
                prev.push((spec_sql_name(p), t, c))
            } else {
                prev
            },
            None => prev,
        }
    }
}

/// The stored fields whose column is named otherwise than by the field's
/// own name alone (a `name`, a `rename` or the struct's `rename_all`), each
/// as the field's name and the column's name, in field order.
pub open spec fn renamed_columns(ps: Seq<ParameterView>) -> Seq<(Seq<char>, Seq<char>)>
    decreases ps.len(),
{
    if ps.len() == 0 {
        Seq::empty()
    } else {
        let p = ps[0];
        let rest = renamed_columns(ps.drop_first());
        if !p.ignore && (p.name is Some || p.rename is Some) {
            seq![(p.ident, spec_sql_name(p))] + rest
        } else {
            rest
        }
    }
}

/// The column named for the field `name`: the first renamed field of that
/// name gives its column's name; any other name is kept.
pub open spec fn lookup_column(rs: Seq<(Seq<char>, Seq<char>)>, name: Seq<char>) -> Seq<char>
    decreases rs.len(),
{
    if rs.len() == 0 {
        name
    } else if rs[0].0 == name {
        rs[0].1
    } else {
        lookup_column(rs.drop_first(), name)
    }
}

impl TableSchema {
    pub open spec fn spec_params(&self) -> Seq<ParameterView> {
        param_views(self.params@)
    }

    /// The names of the columns of `set`.
    pub fn columns(&self, set: ColumnSet) -> (r: Vec<String>)
        ensures
            crate::text::views(r@) == column_names(self.spec_params(), set),
    {
        let ghost ps = self.spec_params();
        let mut r: Vec<String> = Vec::new();
        let n = self.params.len();
        let mut i: usize = 0;
        assert(ps.take(0) =~= Seq::<ParameterView>::empty());
        assert(crate::text::views(r@) =~= Seq::<Seq<char>>::empty());
        while i < n
            invariant
                n == self.params@.len(),
                ps == self.spec_params(),
                i <= n,
                crate::text::views(r@) == column_names(ps.take(i as int), set),
            decreases n - i,
        {
            assert(ps.take(i + 1).drop_last() =~= ps.take(i as int));
            assert(ps.take(i + 1).last() == self.params@[i as int]@);
            let p = &self.params[i];
            if set.keeps_exec(p) {
                let name = p.sql_name();
                let ghost before = crate::text::views(r@);
                r.push(name);
                assert(crate::text::views(r@) =~= before.push(name@));
            }
            i += 1;
        }
        assert(ps.take(n as int) =~= ps);
        r
    }

    /// The positions of the fields of the columns of `set`.
    pub fn positions(&self, set: ColumnSet) -> (r: Vec<usize>)
        ensures
            r@ == field_positions(self.spec_params(), set),
    {
        let ghost ps = self.spec_params();
        let mut r: Vec<usize> = Vec::new();
        let n = self.params.len();
        let mut i: usize = 0;
        assert(ps.take(0) =~= Seq::<ParameterView>::empty());
        while i < n
            invariant
                n == self.params@.len(),
                ps == self.spec_params(),
                i <= n,
                r@ == field_positions(ps.take(i as int), set),
            decreases n - i,
        {
            assert(ps.take(i + 1).drop_last() =~= ps.take(i as int));
            assert(ps.take(i + 1).last() == self.params@[i as int]@);
            if set.keeps_exec(&self.params[i]) {
                r.push(i);
            }
            i += 1;
        }
        assert(ps.take(n as int) =~= ps);
        r
    }

    /// The foreign keys, in field order.
    pub fn foreign_keys(&self) -> (r: Vec<ForeignKey>)
        ensures
            r@.map_values(|k: ForeignKey| (k.column@, k.table@, k.references@)) == foreign_keys(self.spec_params()),
    {
        let ghost ps = self.spec_params();
        let mut r: Vec<ForeignKey> = Vec::new();
        let n = self.params.len();
        let mut i: usize = 0;
        assert(ps.take(0) =~= Seq::<ParameterView>::empty());
        assert(r@.map_values(|k: ForeignKey| (k.column@, k.table@, k.references@)) =~= Seq::<(Seq<char>, Seq<char>, Seq<char>)>::empty());
        while i < n
            invariant
                n == self.params@.len(),
                ps == self.spec_params(),
                i <= n,
                r@.map_values(|k: ForeignKey| (k.column@, k.table@, k.references@)) == foreign_keys(ps.take(i as int)),
            decreases n - i,
        {
            assert(ps.take(i + 1).drop_last() =~= ps.take(i as int));
            assert(ps.take(i + 1).last() == self.params@[i as int]@);
            let p = &self.params[i];
            if !p.ignore {
                match &p.foreign {
                    Some((t, c)) => {
                        let k = ForeignKey { column: p.sql_name(), table: t.clone(), references: c.clone() };
                        let ghost before = r@;
                        r.push(k);
                        assert(r@ =~= before.push(k));
                        assert(r@.map_values(|k: ForeignKey| (k.column@, k.table@, k.references@)) =~= before.map_values(|k: ForeignKey| (k.column@, k.table@, k.references@)).push((k.column@, k.table@, k.references@)));
                    },
                    None => {},
                }
            }
            i += 1;
        }
        assert(ps.take(n as int) =~= ps);
        r
    }

    /// The column named for the field `name` (what `Table::column_name` gives).
    pub fn column_name(&self, name: &str) -> (r: String)
        ensures
            r@ == lookup_column(renamed_columns(self.spec_params()), name@),
    {
        let ghost ps = self.spec_params();
        let n = self.params.len();
        let mut i: usize = 0;
        let mut found: Option<String> = None;
        assert(ps.skip(0) =~= ps);
        while i < n && found.is_none()
            invariant
                n == self.params@.len(),
                ps == self.spec_params(),
                i <= n,
                found is None ==> lookup_column(renamed_columns(ps), name@) == lookup_column(renamed_columns(ps.skip(i as int)), name@),
                found matches Some(f) ==> f@ == lookup_column(renamed_columns(ps), name@),
            decreases n - i,
        {
            let p = &self.params[i];
            assert(ps.skip(i as int)[0] == p@);
            assert(ps.skip(i as int).drop_first() =~= ps.skip(i + 1));
            if !p.ignore && (p.name.is_some() || p.rename.is_some()) && str_eq(p.ident.as_str(), name) {
                found = Some(p.sql_name());
            }
            proof {
                let rest = renamed_columns(ps.skip(i + 1));
                if !p@.ignore && (p@.name is Some || p@.rename is Some) {
                    let l = seq![(p@.ident, spec_sql_name(p@))] + rest;
                    assert(l.drop_first() =~= rest);
                    assert(renamed_columns(ps.skip(i as int)) == l);
                } else {
                    assert(renamed_columns(ps.skip(i as int)) == rest);
                }
            }
            i += 1;
        }
        match found {
            Some(f) => f,
            None => {
                assert(ps.skip(n as int) =~= Seq::<ParameterView>::empty());
                String::from_str(name)
            },
        }
    }
}

/// A name that is no field's name is kept by `column_name`.
pub proof fn law_column_name_other(ps: Seq<ParameterView>, name: Seq<char>)
    requires
        forall|j: int| 0 <= j < ps.len() ==> ps[j].ident != name,
    ensures
        lookup_column(renamed_columns(ps), name) == name,
    decreases ps.len(),
{
    if ps.len() > 0 {
        let rest = ps.drop_first();
        law_column_name_other(rest, name);
        let p = ps[0];
        if !p.ignore && (p.name is Some || p.rename is Some) {
            let l = seq![(p.ident, spec_sql_name(p))] + renamed_columns(rest);
            assert(l.drop_first() =~= renamed_columns(rest));
        }
    }
}

/// `column_name` gives each stored field's column name, the fields' names
/// being distinct.
pub proof fn law_column_name_of_field(ps: Seq<ParameterView>, i: int)
    requires
        0 <= i < ps.len(),
        !ps[i].ignore,
        forall|j: int, k: int| 0 <= j < ps.len() && 0 <= k < ps.len() && j != k ==> ps[j].ident != ps[k].ident,
    ensures
        lookup_column(renamed_columns(ps), ps[i].ident) == spec_sql_name(ps[i]),
    decreases ps.len(),
{
    let p = ps[0];
    let rest = ps.drop_first();
    let renamed = !p.ignore && (p.name is Some || p.rename is Some);
    let l = seq![(p.ident, spec_sql_name(p))] + renamed_columns(rest);
    assert(l.drop_first() =~= renamed_columns(rest));
    if i == 0 {
        if !renamed {
            assert forall|j: int| 0 <= j < rest.len() implies rest[j].ident != p.ident by {
                assert(rest[j] == ps[j + 1]);
            }
            law_column_name_other(rest, p.ident);
        }
    } else {
        assert forall|j: int, k: int| 0 <= j < rest.len() && 0 <= k < rest.len() && j != k implies rest[j].ident
            != rest[k].ident by {
            assert(rest[j] == ps[j + 1]);
            assert(rest[k] == ps[k + 1]);
        }
        assert(rest[i - 1] == ps[i]);
        law_column_name_of_field(rest, i - 1);
    }
}

/// The columns of a set are those of the fields at its positions, in order:
/// the values bound for a statement come from the fields whose columns it
/// names.
pub proof fn law_positions_name_columns(ps: Seq<ParameterView>, set: ColumnSet)
    requires
        ps.len() <= usize::MAX,
    ensures
        field_positions(ps, set).len() == column_names(ps, set).len(),
        forall|k: int| 0 <= k < field_positions(ps, set).len() ==> {
            let i = #[trigger] field_positions(ps, set)[k] as int;
            &&& 0 <= i < ps.len()
            &&& set.keeps(ps[i])
            &&& column_names(ps, set)[k] == spec_sql_name(ps[i])
        },
    decreases ps.len(),
{
    if ps.len() > 0 {
        let d = ps.drop_last();
        law_positions_name_columns(d, set);
        let pos = field_positions(ps, set);
        let names = column_names(ps, set);
        let pd = field_positions(d, set);
        let nd = column_names(d, set);
        if set.keeps(ps.last()) {
            assert(pos == pd.push((ps.len() - 1) as usize));
            assert(names == nd.push(spec_sql_name(ps.last())));
        } else {
            assert(pos == pd);
            assert(names == nd);
        }
        assert forall|k: int| 0 <= k < pos.len() implies {
            let i = #[trigger] pos[k] as int;
            &&& 0 <= i < ps.len()
            &&& set.keeps(ps[i])
            &&& names[k] == spec_sql_name(ps[i])
        } by {
            if k < pd.len() {
                let i = pd[k] as int;
                assert(pos[k] == pd[k]);
                assert(names[k] == nd[k]);
                assert(ps[i] == d[i]);
            } else {
                assert(pos[k] == (ps.len() - 1) as usize);
                assert(names[k] == spec_sql_name(ps.last()));
            }
        }
    }
}

/// The struct's `name` setting names the table, whatever the struct is
/// called: as it is without a `rename`, rewritten in the `rename` convention
/// with one. Without either setting the table has the struct's name.
pub proof fn law_table_name(ident: Seq<char>, other: Seq<char>, t: TableAttributesView)
    ensures
        t.name matches Some(n) ==> (t.rename is None ==> spec_table_name(ident, t) == n),
        t.name matches Some(n) ==> (t.rename matches Some(r) ==> spec_table_name(ident, t) == r.spec_apply(n)),
        t.name is Some ==> spec_table_name(ident, t) == spec_table_name(other, t),
        t.name is None && t.rename is None ==> spec_table_name(ident, t) == ident,
{
}

/// A field's `name` setting names its column, whatever the field is called:
/// as it is without a `rename` in force, rewritten in that convention with
/// one. Without either the column has the field's name.
pub proof fn law_column_name(p: ParameterView, q: ParameterView)
    ensures
        p.name matches Some(n) ==> (p.rename is None ==> spec_sql_name(p) == n),
        p.name matches Some(n) ==> (p.rename matches Some(r) ==> spec_sql_name(p) == r.spec_apply(n)),
        p.name is Some && q.name == p.name && q.rename == p.rename ==> spec_sql_name(p) == spec_sql_name(q),
        p.name is None && p.rename is None ==> spec_sql_name(p) == p.ident,
{
}

/// Which fields each kind of column takes: the stored columns are the fields
/// not ignored; the inserted ones are the stored ones but the primary key;
/// the key and the unique columns are stored ones.
pub proof fn law_column_sets(p: ParameterView)
    ensures
        ColumnSet::Stored.keeps(p) <==> !p.ignore,
        ColumnSet::Inserted.keeps(p) <==> ColumnSet::Stored.keeps(p) && !p.primary,
        ColumnSet::Key.keeps(p) <==> ColumnSet::Stored.keeps(p) && (p.primary || p.foreign is Some),
        ColumnSet::Unique.keeps(p) <==> ColumnSet::Stored.keeps(p) && p.unique,
{
}

/// Each field that a set takes gives its column to the set's names.
pub proof fn law_column_names_complete(ps: Seq<ParameterView>, set: ColumnSet, i: int)
    requires
        0 <= i < ps.len(),
        set.keeps(ps[i]),
    ensures
        exists|k: int| 0 <= k < column_names(ps, set).len() && #[trigger] column_names(ps, set)[k] == spec_sql_name(ps[i]),
    decreases ps.len(),
{
    let d = ps.drop_last();
    let nd = column_names(d, set);
    if i == ps.len() - 1 {
        assert(column_names(ps, set) == nd.push(spec_sql_name(ps[i])));
        assert(column_names(ps, set)[nd.len() as int] == spec_sql_name(ps[i]));
    } else {
        assert(d[i] == ps[i]);
        law_column_names_complete(d, set, i);
        let k = choose|k: int| 0 <= k < nd.len() && #[trigger] nd[k] == spec_sql_name(d[i]);
        assert(column_names(ps, set)[k] == nd[k]);
    }
}

/// A field's position is among those of a set exactly when the set takes
/// the field.
pub proof fn law_positions_exact(ps: Seq<ParameterView>, set: ColumnSet, i: int)
    requires
        ps.len() <= usize::MAX,
        0 <= i < ps.len(),
    ensures
        (exists|k: int| 0 <= k < field_positions(ps, set).len() && #[trigger] field_positions(ps, set)[k] == i)
            <==> set.keeps(ps[i]),
    decreases ps.len(),
{
    let pos = field_positions(ps, set);
    law_positions_name_columns(ps, set);
    if exists|k: int| 0 <= k < pos.len() && #[trigger] pos[k] == i {
        let k = choose|k: int| 0 <= k < pos.len() && #[trigger] pos[k] == i;
        assert(set.keeps(ps[pos[k] as int]));
    }
    if set.keeps(ps[i]) {
        let d = ps.drop_last();
        let pd = field_positions(d, set);
        if i == ps.len() - 1 {
            assert(pos == pd.push((ps.len() - 1) as usize));
            assert(pos[pd.len() as int] == i);
        } else {
            assert(d[i] == ps[i]);
            law_positions_exact(d, set, i);
            let k = choose|k: int| 0 <= k < pd.len() && #[trigger] pd[k] == i;
            assert(pos[k] == pd[k]);
        }
    }
}

/// An insertion takes exactly the fields that are neither ignored nor the
/// primary key.
pub proof fn law_inserted_fields(ps: Seq<ParameterView>, i: int)
    requires
        ps.len() <= usize::MAX,
        0 <= i < ps.len(),
    ensures
        (exists|k: int| 0 <= k < field_positions(ps, ColumnSet::Inserted).len()
            && #[trigger] field_positions(ps, ColumnSet::Inserted)[k] == i) <==> (!ps[i].ignore && !ps[i].primary),
{
    law_positions_exact(ps, ColumnSet::Inserted, i);
}

/// A stored field with a `name` setting and no `rename` in force has that
/// name as its column: `column_name` gives it for the field's name, and it
/// is among the stored columns (the fields' names being distinct).
pub proof fn law_named_field_column(ps: Seq<ParameterView>, i: int)
    requires
        0 <= i < ps.len(),
        !ps[i].ignore,
        forall|j: int, k: int| 0 <= j < ps.len() && 0 <= k < ps.len() && j != k ==> ps[j].ident != ps[k].ident,
    ensures
        ps[i].rename is None ==> (ps[i].name matches Some(n) ==> {
            &&& lookup_column(renamed_columns(ps), ps[i].ident) == n
            &&& exists|k: int| 0 <= k < column_names(ps, ColumnSet::Stored).len()
                && #[trigger] column_names(ps, ColumnSet::Stored)[k] == n
        }),
{
    law_column_name_of_field(ps, i);
    law_column_names_complete(ps, ColumnSet::Stored, i);
}

/// The foreign keys are those of the stored fields with a foreign setting,
/// each named by its field's column: every entry comes from such a field,
/// and every such field gives an entry.
pub proof fn law_foreign_keys_exact(ps: Seq<ParameterView>)
    ensures
        forall|k: int| 0 <= k < foreign_keys(ps).len() ==> exists|i: int|
            0 <= i < ps.len() && !ps[i].ignore && (#[trigger] ps[i]).foreign == Some(
                ((#[trigger] foreign_keys(ps)[k]).1, foreign_keys(ps)[k].2),
            ) && foreign_keys(ps)[k].0 == spec_sql_name(ps[i]),
        forall|i: int| 0 <= i < ps.len() && !(#[trigger] ps[i]).ignore && ps[i].foreign is Some ==> exists|k: int|
            0 <= k < foreign_keys(ps).len() && #[trigger] foreign_keys(ps)[k] == (
                spec_sql_name(ps[i]),
                ps[i].foreign.unwrap().0,
                ps[i].foreign.unwrap().1,
            ),
    decreases ps.len(),
{
    if ps.len() > 0 {
        let d = ps.drop_last();
        law_foreign_keys_exact(d);
        let fd = foreign_keys(d);
        let f = foreign_keys(ps);
        let p = ps.last();
        let n = ps.len() - 1;
        let added = !p.ignore && p.foreign is Some;
        if added {
            assert(f == fd.push((spec_sql_name(p), p.foreign.unwrap().0, p.foreign.unwrap().1)));
        } else {
            assert(f == fd);
        }
        assert forall|k: int| 0 <= k < f.len() implies exists|i: int|
            0 <= i < ps.len() && !ps[i].ignore && (#[trigger] ps[i]).foreign == Some(((#[trigger] f[k]).1, f[k].2))
                && f[k].0 == spec_sql_name(ps[i]) by {
            if k < fd.len() {
                assert(f[k] == fd[k]);
                let i = choose|i: int|
                    0 <= i < d.len() && !d[i].ignore && (#[trigger] d[i]).foreign == Some((fd[k].1, fd[k].2))
                        && fd[k].0 == spec_sql_name(d[i]);
                assert(ps[i] == d[i]);
            } else {
                assert(ps[n] == p);
            }
        }
        assert forall|i: int| 0 <= i < ps.len() && !(#[trigger] ps[i]).ignore && ps[i].foreign is Some implies exists|k: int|
            0 <= k < f.len() && #[trigger] f[k] == (spec_sql_name(ps[i]), ps[i].foreign.unwrap().0, ps[i].foreign.unwrap().1) by {
            if i < n {
                assert(d[i] == ps[i]);
                let k = choose|k: int|
                    0 <= k < fd.len() && #[trigger] fd[k] == (spec_sql_name(d[i]), d[i].foreign.unwrap().0, d[i].foreign.unwrap().1);
                assert(f[k] == fd[k]);
            } else {
                assert(f[fd.len() as int] == (spec_sql_name(p), p.foreign.unwrap().0, p.foreign.unwrap().1));
            }
        }
    }
}

} // verus!
