//! The `#[table(...)]` and `#[column(...)]` attributes: what their items
//! mean, how several of them combine, and the diagnostics they raise.

use vstd::prelude::*;
use crate::rename::{Rename, rename_hint, rename_named};
use crate::text::str_eq;

verus! {

/// The value on the right of `key = value` in an attribute.
pub enum AttrValue {
    /// A string literal, by the string it denotes.
    Str(String),
    /// A call `f(a, ...)`: the last segment of `f` when `f` is a path, and for
    /// each argument the last segment of it when it is a path.
    Call { func: Option<String>, args: Vec<Option<String>> },
    /// Any other expression.
    Other,
}

/// One comma-separated item of an attribute: a bare name or `name = value`.
pub enum AttrItem {
    Flag(String),
    Assign(String, AttrValue),
}

/// An attribute written as a list, `#[name(...)]`: the last segment of its
/// path, and its content read as items, or the message of the syntax error
/// met reading them.
pub struct AttrList {
    pub name: String,
    pub items: Result<Vec<AttrItem>, String>,
}

/// What is wrong with an attribute item.
#[derive(Clone, Copy, Debug, PartialEq, Eq, Structural)]
pub enum AttrError {
    /// A `rename` or `rename_all` that names no convention.
    InvalidRename,
    /// A `rename`, `rename_all` or `name` whose value is not a string literal.
    ExpectedStringLiteral,
    /// A `foreign` call whose callee is not a path (stops the derive).
    ExpectedTableIdentifier,
    /// A `foreign` call without exactly one argument (stops the derive).
    ExpectedOneColumn,
    /// A `foreign` call whose argument is not a path (stops the derive).
    ExpectedColumnIdentifier,
    /// A `foreign` whose value is not a call.
    ExpectedForeignSyntax,
    /// A bare name in a table attribute.
    InvalidAttribute,
    /// An attribute whose content is not a list of items.
    Syntax,
}

impl AttrError {
    /// The error stops the derive at once.
    pub open spec fn fatal(self) -> bool {
        match self {
            AttrError::ExpectedTableIdentifier | AttrError::ExpectedOneColumn
            | AttrError::ExpectedColumnIdentifier => true,
            _ => false,
        }
    }

    /// The message shown; for a syntax error, the parser's own message follows it.
    pub open spec fn spec_message(self) -> Seq<char> {
        match self {
            AttrError::InvalidRename => rename_hint(),
            AttrError::ExpectedStringLiteral => "expected a string literal"@,
            AttrError::ExpectedTableIdentifier => "expected a table indentifier"@,
            AttrError::ExpectedOneColumn => "expected only 1 column"@,
            AttrError::ExpectedColumnIdentifier => "expected a table column identifier"@,
            AttrError::ExpectedForeignSyntax => "expected the syntax `Table(column)`"@,
            AttrError::InvalidAttribute => "invalid attribute"@,
            AttrError::Syntax => "CATTRERR: "@,
        }
    }

    pub fn is_fatal(&self) -> (r: bool)
        ensures
            r == self.fatal(),
    {
        match self {
            AttrError::ExpectedTableIdentifier | AttrError::ExpectedOneColumn
            | AttrError::ExpectedColumnIdentifier => true,
            _ => false,
        }
    }

    pub fn message(&self) -> (r: &'static str)
        ensures
            r@ == self.spec_message(),
    {
        match self {
            AttrError::InvalidRename => "did you mean: `snake_case`, `UPPER_SNAKE_CASE`, `kebab-case`, `UPPER-KEBAB-CASE`, `camelCase`, `PascalCase`, `lower`, `UPPER`",
            AttrError::ExpectedStringLiteral => "expected a string literal",
            AttrError::ExpectedTableIdentifier => "expected a table indentifier",
            AttrError::ExpectedOneColumn => "expected only 1 column",
            AttrError::ExpectedColumnIdentifier => "expected a table column identifier",
            AttrError::ExpectedForeignSyntax => "expected the syntax `Table(column)`",
            AttrError::InvalidAttribute => "invalid attribute",
            AttrError::Syntax => "CATTRERR: ",
        }
    }
}

/// An error found in an attribute: the field whose attribute it is (`None`
/// for the struct's own attributes), the attribute's position among them, the
/// item's position in it, what is wrong, and the message to show.
pub struct Diagnostic {
    pub field: Option<usize>,
    pub attr: usize,
    pub item: usize,
    pub error: AttrError,
    pub message: String,
}

pub struct DiagnosticView {
    pub field: Option<usize>,
    pub attr: usize,
    pub item: usize,
    pub error: AttrError,
    pub message: Seq<char>,
}

impl View for Diagnostic {
    type V = DiagnosticView;

    open spec fn view(&self) -> DiagnosticView {
        DiagnosticView {
            field: self.field,
            attr: self.attr,
            item: self.item,
            error: self.error,
            message: self.message@,
        }
    }
}

pub open spec fn diag_views(d: Seq<Diagnostic>) -> Seq<DiagnosticView> {
    d.map_values(|x: Diagnostic| x@)
}

/// The diagnostic for item `item` of attribute `attr`.
pub open spec fn item_diag(field: Option<usize>, attr: usize, item: usize, e: AttrError) -> DiagnosticView {
    DiagnosticView { field, attr, item, error: e, message: e.spec_message() }
}

/// The diagnostic for attribute `attr`, whose content did not parse.
pub open spec fn syntax_diag(field: Option<usize>, attr: usize, detail: Seq<char>) -> DiagnosticView {
    DiagnosticView {
        field,
        attr,
        item: 0,
        error: AttrError::Syntax,
        message: AttrError::Syntax.spec_message() + detail,
    }
}

fn new_item_diag(field: Option<usize>, attr: usize, item: usize, e: AttrError) -> (r: Diagnostic)
    ensures
        r@ == item_diag(field, attr, item, e),
{
    Diagnostic { field, attr, item, error: e, message: String::from_str(e.message()) }
}

fn new_syntax_diag(field: Option<usize>, attr: usize, detail: &String) -> (r: Diagnostic)
    ensures
        r@ == syntax_diag(field, attr, detail@),
{
    let message = String::from_str(AttrError::Syntax.message()).concat(detail.as_str());
    Diagnostic { field, attr, item: 0, error: AttrError::Syntax, message }
}

/// What a scan of attributes found: the value read, the diagnostics raised,
/// and whether a fatal one stopped it.
pub struct Parsed<T> {
    pub value: T,
    pub diagnostics: Vec<Diagnostic>,
    pub aborted: bool,
}

pub struct ScanView<V> {
    pub value: V,
    pub diags: Seq<DiagnosticView>,
    pub aborted: bool,
}

/// The string that an optional `String` holds.
pub open spec fn opt_view(o: Option<String>) -> Option<Seq<char>> {
    match o {
        Some(s) => Some(s@),
        None => None,
    }
}

/// What the `#[table(...)]` attributes of a struct set.
pub struct TableAttributes {
    pub name: Option<String>,
    pub rename: Option<Rename>,
    pub rename_all: Option<Rename>,
}

pub struct TableAttributesView {
    pub name: Option<Seq<char>>,
    pub rename: Option<Rename>,
    pub rename_all: Option<Rename>,
}

impl View for TableAttributes {
    type V = TableAttributesView;

    open spec fn view(&self) -> TableAttributesView {
        TableAttributesView { name: opt_view(self.name), rename: self.rename, rename_all: self.rename_all }
    }
}

/// What the `#[column(...)]` attributes of a field set.
pub struct ColumnAttributes {
    pub name: Option<String>,
    pub rename: Option<Rename>,
    pub primary: bool,
    pub unique: bool,
    pub ignore: bool,
    pub foreign: Option<(String, String)>,
}

pub struct ColumnAttributesView {
    pub name: Option<Seq<char>>,
    pub rename: Option<Rename>,
    pub primary: bool,
    pub unique: bool,
    pub ignore: bool,
    pub foreign: Option<(Seq<char>, Seq<char>)>,
}

/// The table and column that a foreign key refers to.
pub open spec fn foreign_view(o: Option<(String, String)>) -> Option<(Seq<char>, Seq<char>)> {
    match o {
        Some((t, c)) => Some((t@, c@)),
        None => None,
    }
}

impl View for ColumnAttributes {
    type V = ColumnAttributesView;

    open spec fn view(&self) -> ColumnAttributesView {
        ColumnAttributesView {
            name: opt_view(self.name),
            rename: self.rename,
            primary: self.primary,
            unique: self.unique,
            ignore: self.ignore,
            foreign: foreign_view(self.foreign),
        }
    }
}

/// Nothing set.
pub open spec fn table_default() -> TableAttributesView {
    TableAttributesView { name: None, rename: None, rename_all: None }
}

/// Nothing set.
pub open spec fn column_default() -> ColumnAttributesView {
    ColumnAttributesView {
        name: None,
        rename: None,
        primary: false,
        unique: false,
        ignore: false,
        foreign: None,
    }
}

/// The first that is set.
pub open spec fn or_else<T>(first: Option<T>, second: Option<T>) -> Option<T> {
    match first {
        Some(v) => Some(v),
        None => second,
    }
}

/// `a` followed by `b`: a setting of `b` replaces that of `a`, and a flag is
/// on when it is on in either.
pub open spec fn merge_table(a: TableAttributesView, b: TableAttributesView) -> TableAttributesView {
    TableAttributesView {
        name: or_else(b.name, a.name),
        rename: or_else(b.rename, a.rename),
        rename_all: or_else(b.rename_all, a.rename_all),
    }
}

/// `a` followed by `b`: a setting of `b` replaces that of `a`, and a flag is
/// on when it is on in either.
pub open spec fn merge_column(a: ColumnAttributesView, b: ColumnAttributesView) -> ColumnAttributesView {
    ColumnAttributesView {
        name: or_else(b.name, a.name),
        rename: or_else(b.rename, a.rename),
        primary: a.primary || b.primary,
        unique: a.unique || b.unique,
        ignore: a.ignore || b.ignore,
        foreign: or_else(b.foreign, a.foreign),
    }
}

/// A column's own `rename`, else the table's `rename_all`.
pub open spec fn with_table(a: ColumnAttributesView, t: TableAttributesView) -> ColumnAttributesView {
    ColumnAttributesView { rename: or_else(a.rename, t.rename_all), ..a }
}

impl TableAttributes {
    pub fn new() -> (r: TableAttributes)
        ensures
            r@ == table_default(),
    {
        TableAttributes { name: None, rename: None, rename_all: None }
    }

    /// Lays `rhs` over `self`.
    pub fn add_assign(&mut self, rhs: TableAttributes)
        ensures
            final(self)@ == merge_table(old(self)@, rhs@),
    {
        if rhs.name.is_some() {
            self.name = rhs.name;
        }
        if rhs.rename.is_some() {
            self.rename = rhs.rename;
        }
        if rhs.rename_all.is_some() {
            self.rename_all = rhs.rename_all;
        }
    }
}

impl ColumnAttributes {
    pub fn new() -> (r: ColumnAttributes)
        ensures
            r@ == column_default(),
    {
        ColumnAttributes {
            name: None,
            rename: None,
            primary: false,
            unique: false,
            ignore: false,
            foreign: None,
        }
    }

    /// Lays `rhs` over `self`.
    pub fn add_assign(&mut self, rhs: ColumnAttributes)
        ensures
            final(self)@ == merge_column(old(self)@, rhs@),
    {
        self.primary = self.primary || rhs.primary;
        self.unique = self.unique || rhs.unique;
        self.ignore = self.ignore || rhs.ignore;
        if rhs.name.is_some() {
            self.name = rhs.name;
        }
        if rhs.rename.is_some() {
            self.rename = rhs.rename;
        }
        if rhs.foreign.is_some() {
            self.foreign = rhs.foreign;
        }
    }

    /// Takes the table's `rename_all` where the column has no `rename`.
    pub fn add_assign_table(&mut self, rhs: &TableAttributes)
        ensures
            final(self)@ == with_table(old(self)@, rhs@),
    {
        if self.rename.is_none() {
            self.rename = rhs.rename_all;
        }
    }
}

/// What one item of a `#[column(...)]` attribute does to the settings read
/// so far, and the error it raises, if any. `primary`, `unique` and
/// `ignore` turn their flag on; `rename = "convention"`, `name = "name"` and
/// `foreign = Table(column)` set their setting; anything else is ignored.
pub open spec fn column_item(acc: ColumnAttributesView, item: AttrItem) -> (ColumnAttributesView, Option<AttrError>) {
    match item {
        AttrItem::Flag(n) => if n@ == "primary"@ {
            (ColumnAttributesView { primary: true, ..acc }, None)
        } else if n@ == "unique"@ {
            (ColumnAttributesView { unique: true, ..acc }, None)
        } else if n@ == "ignore"@ {
            (ColumnAttributesView { ignore: true, ..acc }, None)
        } else {
            (acc, None)
        },
        AttrItem::Assign(n, v) => if n@ == "rename"@ {
            match v {
                AttrValue::Str(lit) => match rename_named(lit@) {
                    Some(r) => (ColumnAttributesView { rename: Some(r), ..acc }, None),
                    None => (acc, Some(AttrError::InvalidRename)),
                },
                _ => (acc, Some(AttrError::ExpectedStringLiteral)),
            }
        } else if n@ == "name"@ {
            match v {
                AttrValue::Str(lit) => (ColumnAttributesView { name: Some(lit@), ..acc }, None),
                _ => (acc, Some(AttrError::ExpectedStringLiteral)),
            }
        } else if n@ == "foreign"@ {
            match v {
                AttrValue::Call { func, args } => match func {
                    None => (acc, Some(AttrError::ExpectedTableIdentifier)),
                    Some(table) => if args@.len() != 1 {
                        (acc, Some(AttrError::ExpectedOneColumn))
                    } else {
                        match args@[0] {
                            None => (acc, Some(AttrError::ExpectedColumnIdentifier)),
                            Some(column) => (
                                ColumnAttributesView { foreign: Some((table@, column@)), ..acc },
                                None,
                            ),
                        }
                    },
                },
                _ => (acc, Some(AttrError::ExpectedForeignSyntax)),
            }
        } else {
            (acc, None)
        },
    }
}

/// Reads the items of one `#[column(...)]` attribute in order, from nothing
/// set, and stops after the first fatal error.
pub open spec fn scan_column_items(items: Seq<AttrItem>, field: Option<usize>, attr: usize) -> ScanView<ColumnAttributesView>
    decreases items.len(),
{
    if items.len() == 0 {
        ScanView { value: column_default(), diags: Seq::empty(), aborted: false }
    } else {
        let prev = scan_column_items(items.drop_last(), field, attr);
        if prev.aborted {
            prev
        } else {
            let (v, e) = column_item(prev.value, items.last());
            match e {
                None => ScanView { value: v, diags: prev.diags, aborted: false },
                Some(err) => ScanView {
                    value: v,
                    diags: prev.diags.push(item_diag(field, attr, (items.len() - 1) as usize, err)),
                    aborted: err.fatal(),
                },
            }
        }
    }
}

/// Once a scan has stopped, the items after do not change what it found.
proof fn lemma_column_items_stop(items: Seq<AttrItem>, field: Option<usize>, attr: usize, k: int)
    requires
        0 <= k <= items.len(),
        scan_column_items(items.take(k), field, attr).aborted,
    ensures
        scan_column_items(items, field, attr) == scan_column_items(items.take(k), field, attr),
    decreases items.len(),
{
    if k == items.len() {
        assert(items.take(k) =~= items);
    } else {
        let d = items.drop_last();
        assert(d.take(k) =~= items.take(k));
        lemma_column_items_stop(d, field, attr, k);
    }
}

fn column_item_exec(acc: &mut ColumnAttributes, item: &AttrItem) -> (r: Option<(AttrError, String)>)
    ensures
        final(acc)@ == column_item(old(acc)@, *item).0,
        match column_item(old(acc)@, *item).1 {
            None => r.is_none(),
            Some(e) => r matches Some((e2, m)) && e2 == e && m@ == e.spec_message(),
        },
{
    match item {
        AttrItem::Flag(n) => {
            let n = n.as_str();
            if str_eq(n, "primary") {
                acc.primary = true;
            } else if str_eq(n, "unique") {
                acc.unique = true;
            } else if str_eq(n, "ignore") {
                acc.ignore = true;
            }
            None
        },
        AttrItem::Assign(n, v) => {
            let n = n.as_str();
            if str_eq(n, "rename") {
                match v {
                    AttrValue::Str(lit) => match Rename::parse(lit.as_str()) {
                        Ok(r) => {
                            acc.rename = Some(r);
                            None
                        },
                        Err(e) => Some((AttrError::InvalidRename, e)),
                    },
                    _ => Some((AttrError::ExpectedStringLiteral, String::from_str(AttrError::ExpectedStringLiteral.message()))),
                }
            } else if str_eq(n, "name") {
                match v {
                    AttrValue::Str(lit) => {
                        acc.name = Some(lit.clone());
                        None
                    },
                    _ => Some((AttrError::ExpectedStringLiteral, String::from_str(AttrError::ExpectedStringLiteral.message()))),
                }
            } else if str_eq(n, "foreign") {
                match v {
                    AttrValue::Call { func, args } => match func {
                        None => Some((AttrError::ExpectedTableIdentifier, String::from_str(AttrError::ExpectedTableIdentifier.message()))),
                        Some(table) => if args.len() != 1 {
                            Some((AttrError::ExpectedOneColumn, String::from_str(AttrError::ExpectedOneColumn.message())))
                        } else {
                            match &args[0] {
                                None => Some((AttrError::ExpectedColumnIdentifier, String::from_str(AttrError::ExpectedColumnIdentifier.message()))),
                                Some(column) => {
                                    acc.foreign = Some((table.clone(), column.clone()));
                                    None
                                },
                            }
                        },
                    },
                    _ => Some((AttrError::ExpectedForeignSyntax, String::from_str(AttrError::ExpectedForeignSyntax.message()))),
                }
            } else {
                None
            }
        },
    }
}

/// Reads the items of one `#[column(...)]` attribute.
pub fn parse_column_items(items: &Vec<AttrItem>, field: Option<usize>, attr: usize) -> (r: Parsed<ColumnAttributes>)
    ensures
        ({
            let s = scan_column_items(items@, field, attr);
            &&& r.value@ == s.value
            &&& diag_views(r.diagnostics@) == s.diags
            &&& r.aborted == s.aborted
        }),
{
    let mut acc = ColumnAttributes::new();
    let mut diagnostics: Vec<Diagnostic> = Vec::new();
    let n = items.len();
    let mut i: usize = 0;
    assert(items@.take(0) =~= Seq::<AttrItem>::empty());
    assert(diag_views(diagnostics@) =~= Seq::<DiagnosticView>::empty());
    while i < n
        invariant
            n == items@.len(),
            i <= n,
            ({
                let s = scan_column_items(items@.take(i as int), field, attr);
                &&& acc@ == s.value
                &&& diag_views(diagnostics@) == s.diags
                &&& !s.aborted
            }),
        decreases n - i,
    {
        let ghost prev = items@.take(i as int);
        assert(items@.take(i + 1).drop_last() =~= prev);
        assert(items@.take(i + 1).last() == items@[i as int]);
        match column_item_exec(&mut acc, &items[i]) {
            None => {},
            Some((e, message)) => {
                let ghost before = diag_views(diagnostics@);
                let d = Diagnostic { field, attr, item: i, error: e, message };
                diagnostics.push(d);
                assert(diag_views(diagnostics@) =~= before.push(d@));
                if e.is_fatal() {
                    proof {
                        lemma_column_items_stop(items@, field, attr, i + 1);
                    }
                    return Parsed { value: acc, diagnostics, aborted: true };
                }
            },
        }
        i += 1;
    }
    assert(items@.take(n as int) =~= items@);
    Parsed { value: acc, diagnostics, aborted: false }
}

/// Reads the `#[column(...)]` attributes among `lists` in order: each one's
/// items are read from nothing set and laid over what came before; an
/// attribute whose content did not parse raises a syntax error; a fatal
/// error stops the scan.
pub open spec fn scan_column_lists(lists: Seq<AttrList>, field: Option<usize>) -> ScanView<ColumnAttributesView>
    decreases lists.len(),
{
    if lists.len() == 0 {
        ScanView { value: column_default(), diags: Seq::empty(), aborted: false }
    } else {
        let prev = scan_column_lists(lists.drop_last(), field);
        let l = lists.last();
        let attr = (lists.len() - 1) as usize;
        if prev.aborted || l.name@ != "column"@ {
            prev
        } else {
            match l.items {
                Err(msg) => ScanView {
                    value: prev.value,
                    diags: prev.diags.push(syntax_diag(field, attr, msg@)),
                    aborted: false,
                },
                Ok(items) => {
                    let s = scan_column_items(items@, field, attr);
                    ScanView {
                        value: merge_column(prev.value, s.value),
                        diags: prev.diags + s.diags,
                        aborted: s.aborted,
                    }
                },
            }
        }
    }
}

/// The settings of the field at position `field`, from its attributes
/// `lists` and the struct's settings `table`.
pub open spec fn spec_column_attributes(table: TableAttributesView, lists: Seq<AttrList>, field: usize) -> ScanView<ColumnAttributesView> {
    let s = scan_column_lists(lists, Some(field));
    ScanView { value: with_table(s.value, table), diags: s.diags, aborted: s.aborted }
}

proof fn lemma_column_lists_stop(lists: Seq<AttrList>, field: Option<usize>, k: int)
    requires
        0 <= k <= lists.len(),
        scan_column_lists(lists.take(k), field).aborted,
    ensures
        scan_column_lists(lists, field) == scan_column_lists(lists.take(k), field),
    decreases lists.len(),
{
    if k == lists.len() {
        assert(lists.take(k) =~= lists);
    } else {
        let d = lists.drop_last();
        assert(d.take(k) =~= lists.take(k));
        lemma_column_lists_stop(d, field, k);
    }
}

/// The settings of the field at position `field`, from its attributes and
/// the struct's settings.
pub fn column_attributes(table: &TableAttributes, lists: &Vec<AttrList>, field: usize) -> (r: Parsed<ColumnAttributes>)
    ensures
        ({
            let s = spec_column_attributes(table@, lists@, field);
            &&& r.value@ == s.value
            &&& diag_views(r.diagnostics@) == s.diags
            &&& r.aborted == s.aborted
        }),
{
    let mut acc = ColumnAttributes::new();
    let mut diagnostics: Vec<Diagnostic> = Vec::new();
    let mut aborted = false;
    let n = lists.len();
    let mut i: usize = 0;
    assert(lists@.take(0) =~= Seq::<AttrList>::empty());
    assert(diag_views(diagnostics@) =~= Seq::<DiagnosticView>::empty());
    while i < n && !aborted
        invariant
            n == lists@.len(),
            i <= n,
            ({
                let s = scan_column_lists(lists@.take(i as int), Some(field));
                &&& acc@ == s.value
                &&& diag_views(diagnostics@) == s.diags
                &&& aborted == s.aborted
            }),
            aborted ==> scan_column_lists(lists@, Some(field)) == scan_column_lists(lists@.take(i as int), Some(field)),
        decreases n - i,
    {
        let ghost prev = lists@.take(i as int);
        assert(lists@.take(i + 1).drop_last() =~= prev);
        assert(lists@.take(i + 1).last() == lists@[i as int]);
        let l = &lists[i];
        if str_eq(l.name.as_str(), "column") {
            match &l.items {
                Err(msg) => {
                    let ghost before = diag_views(diagnostics@);
                    let d = new_syntax_diag(Some(field), i, msg);
                    diagnostics.push(d);
                    assert(diag_views(diagnostics@) =~= before.push(d@));
                },
                Ok(items) => {
                    let p = parse_column_items(items, Some(field), i);
                    acc.add_assign(p.value);
                    let ghost before = diag_views(diagnostics@);
                    let ghost added = diag_views(p.diagnostics@);
                    let mut more = p.diagnostics;
                    diagnostics.append(&mut more);
                    assert(diag_views(diagnostics@) =~= before + added);
                    aborted = p.aborted;
                },
            }
        }
        i += 1;
        proof {
            if aborted {
                lemma_column_lists_stop(lists@, Some(field), i as int);
            }
        }
    }
    if !aborted {
        assert(lists@.take(n as int) =~= lists@);
    }
    acc.add_assign_table(table);
    Parsed { value: acc, diagnostics, aborted }
}

/// What one item of a `#[table(...)]` attribute does to the settings read so
/// far, and the error it raises, if any: `rename`, `rename_all` and `name`
/// set their setting; any other `key = value` is ignored; a bare name is an error.
pub open spec fn table_item(acc: TableAttributesView, item: AttrItem) -> (TableAttributesView, Option<AttrError>) {
    match item {
        AttrItem::Flag(_) => (acc, Some(AttrError::InvalidAttribute)),
        AttrItem::Assign(n, v) => if n@ == "rename"@ {
            match v {
                AttrValue::Str(lit) => match rename_named(lit@) {
                    Some(r) => (TableAttributesView { rename: Some(r), ..acc }, None),
                    None => (acc, Some(AttrError::InvalidRename)),
                },
                _ => (acc, Some(AttrError::ExpectedStringLiteral)),
            }
        } else if n@ == "rename_all"@ {
            match v {
                AttrValue::Str(lit) => match rename_named(lit@) {
                    Some(r) => (TableAttributesView { rename_all: Some(r), ..acc }, None),
                    None => (acc, Some(AttrError::InvalidRename)),
                },
                _ => (acc, Some(AttrError::ExpectedStringLiteral)),
            }
        } else if n@ == "name"@ {
            match v {
                AttrValue::Str(lit) => (TableAttributesView { name: Some(lit@), ..acc }, None),
                _ => (acc, Some(AttrError::ExpectedStringLiteral)),
            }
        } else {
            (acc, None)
        },
    }
}

/// Reads the items of one `#[table(...)]` attribute in order, from nothing set.
pub open spec fn scan_table_items(items: Seq<AttrItem>, attr: usize) -> ScanView<TableAttributesView>
    decreases items.len(),
{
    if items.len() == 0 {
        ScanView { value: table_default(), diags: Seq::empty(), aborted: false }
    } else {
        let prev = scan_table_items(items.drop_last(), attr);
        let (v, e) = table_item(prev.value, items.last());
        match e {
            None => ScanView { value: v, diags: prev.diags, aborted: false },
            Some(err) => ScanView {
                value: v,
                diags: prev.diags.push(item_diag(None, attr, (items.len() - 1) as usize, err)),
                aborted: false,
            },
        }
    }
}

/// Reads the `#[table(...)]` attributes among `lists` in order, each laid
/// over what came before.
pub open spec fn spec_table_attributes(lists: Seq<AttrList>) -> ScanView<TableAttributesView>
    decreases lists.len(),
{
    if lists.len() == 0 {
        ScanView { value: table_default(), diags: Seq::empty(), aborted: false }
    } else {
        let prev = spec_table_attributes(lists.drop_last());
        let l = lists.last();
        let attr = (lists.len() - 1) as usize;
        if l.name@ != "table"@ {
            prev
        } else {
            match l.items {
                Err(msg) => ScanView {
                    value: prev.value,
                    diags: prev.diags.push(syntax_diag(None, attr, msg@)),
                    aborted: false,
                },
                Ok(items) => {
                    let s = scan_table_items(items@, attr);
                    ScanView {
                        value: merge_table(prev.value, s.value),
                        diags: prev.diags + s.diags,
                        aborted: false,
                    }
                },
            }
        }
    }
}

fn rename_value(v: &AttrValue) -> (r: Result<Rename, (AttrError, String)>)
    ensures
        match *v {
            AttrValue::Str(lit) => match rename_named(lit@) {
                Some(x) => r == Ok::<Rename, (AttrError, String)>(x),
                None => r matches Err((e, m)) && e == AttrError::InvalidRename && m@ == e.spec_message(),
            },
            _ => r matches Err((e, m)) && e == AttrError::ExpectedStringLiteral && m@ == e.spec_message(),
        },
{
    match v {
        AttrValue::Str(lit) => match Rename::parse(lit.as_str()) {
            Ok(x) => Ok(x),
            Err(m) => Err((AttrError::InvalidRename, m)),
        },
        _ => Err((AttrError::ExpectedStringLiteral, String::from_str(AttrError::ExpectedStringLiteral.message()))),
    }
}

fn table_item_exec(acc: &mut TableAttributes, item: &AttrItem) -> (r: Option<(AttrError, String)>)
    ensures
        final(acc)@ == table_item(old(acc)@, *item).0,
        match table_item(old(acc)@, *item).1 {
            None => r.is_none(),
            Some(e) => r matches Some((e2, m)) && e2 == e && m@ == e.spec_message(),
        },
{
    match item {
        AttrItem::Flag(_) => Some((AttrError::InvalidAttribute, String::from_str(AttrError::InvalidAttribute.message()))),
        AttrItem::Assign(n, v) => {
            let n = n.as_str();
            if str_eq(n, "rename") {
                match rename_value(v) {
                    Ok(x) => {
                        acc.rename = Some(x);
                        None
                    },
                    Err(e) => Some(e),
                }
            } else if str_eq(n, "rename_all") {
                match rename_value(v) {
                    Ok(x) => {
                        acc.rename_all = Some(x);
                        None
                    },
                    Err(e) => Some(e),
                }
            } else if str_eq(n, "name") {
                match v {
                    AttrValue::Str(lit) => {
                        acc.name = Some(lit.clone());
                        None
                    },
                    _ => Some((AttrError::ExpectedStringLiteral, String::from_str(AttrError::ExpectedStringLiteral.message()))),
                }
            } else {
                None
            }
        },
    }
}

fn parse_table_items(items: &Vec<AttrItem>, attr: usize) -> (r: Parsed<TableAttributes>)
    ensures
        ({
            let s = scan_table_items(items@, attr);
            &&& r.value@ == s.value
            &&& diag_views(r.diagnostics@) == s.diags
            &&& !r.aborted
        }),
{
    let mut acc = TableAttributes::new();
    let mut diagnostics: Vec<Diagnostic> = Vec::new();
    let n = items.len();
    let mut i: usize = 0;
    assert(items@.take(0) =~= Seq::<AttrItem>::empty());
    assert(diag_views(diagnostics@) =~= Seq::<DiagnosticView>::empty());
    while i < n
        invariant
            n == items@.len(),
            i <= n,
            ({
                let s = scan_table_items(items@.take(i as int), attr);
                &&& acc@ == s.value
                &&& diag_views(diagnostics@) == s.diags
            }),
        decreases n - i,
    {
        assert(items@.take(i + 1).drop_last() =~= items@.take(i as int));
        assert(items@.take(i + 1).last() == items@[i as int]);
        match table_item_exec(&mut acc, &items[i]) {
            None => {},
            Some((e, message)) => {
                let ghost before = diag_views(diagnostics@);
                let d = Diagnostic { field: None, attr, item: i, error: e, message };
                diagnostics.push(d);
                assert(diag_views(diagnostics@) =~= before.push(d@));
            },
        }
        i += 1;
    }
    assert(items@.take(n as int) =~= items@);
    Parsed { value: acc, diagnostics, aborted: false }
}

/// The struct's settings, from its attributes.
pub fn table_attributes(lists: &Vec<AttrList>) -> (r: Parsed<TableAttributes>)
    ensures
        ({
            let s = spec_table_attributes(lists@);
            &&& r.value@ == s.value
            &&& diag_views(r.diagnostics@) == s.diags
            &&& !r.aborted
        }),
{
    let mut acc = TableAttributes::new();
    let mut diagnostics: Vec<Diagnostic> = Vec::new();
    let n = lists.len();
    let mut i: usize = 0;
    assert(lists@.take(0) =~= Seq::<AttrList>::empty());
    assert(diag_views(diagnostics@) =~= Seq::<DiagnosticView>::empty());
    while i < n
        invariant
            n == lists@.len(),
            i <= n,
            ({
                let s = spec_table_attributes(lists@.take(i as int));
                &&& acc@ == s.value
                &&& diag_views(diagnostics@) == s.diags
            }),
        decreases n - i,
    {
        assert(lists@.take(i + 1).drop_last() =~= lists@.take(i as int));
        assert(lists@.take(i + 1).last() == lists@[i as int]);
        let l = &lists[i];
        if str_eq(l.name.as_str(), "table") {
            match &l.items {
                Err(msg) => {
                    let ghost before = diag_views(diagnostics@);
                    let d = new_syntax_diag(None, i, msg);
                    diagnostics.push(d);
                    assert(diag_views(diagnostics@) =~= before.push(d@));
                },
                Ok(items) => {
                    let p = parse_table_items(items, i);
                    acc.add_assign(p.value);
                    let ghost before = diag_views(diagnostics@);
                    let ghost added = diag_views(p.diagnostics@);
                    let mut more = p.diagnostics;
                    diagnostics.append(&mut more);
                    assert(diag_views(diagnostics@) =~= before + added);
                },
            }
        }
        i += 1;
    }
    assert(lists@.take(n as int) =~= lists@);
    Parsed { value: acc, diagnostics, aborted: false }
}

/// Laying settings over nothing, or nothing over settings, keeps them.
pub proof fn law_column_merge_identity(a: ColumnAttributesView)
    ensures
        merge_column(column_default(), a) == a,
        merge_column(a, column_default()) == a,
{
}

/// Laying column settings over one another is associative.
pub proof fn law_column_merge_associative(a: ColumnAttributesView, b: ColumnAttributesView, c: ColumnAttributesView)
    ensures
        merge_column(merge_column(a, b), c) == merge_column(a, merge_column(b, c)),
{
}

/// Laying settings over nothing, or nothing over settings, keeps them.
pub proof fn law_table_merge_identity(a: TableAttributesView)
    ensures
        merge_table(table_default(), a) == a,
        merge_table(a, table_default()) == a,
{
}

/// Laying table settings over one another is associative.
pub proof fn law_table_merge_associative(a: TableAttributesView, b: TableAttributesView, c: TableAttributesView)
    ensures
        merge_table(merge_table(a, b), c) == merge_table(a, merge_table(b, c)),
{
}

/// An item acts on settings laid over others as on the settings alone, and
/// raises the same error.
proof fn lemma_column_item_merge(s: ColumnAttributesView, t: ColumnAttributesView, x: AttrItem)
    ensures
        column_item(merge_column(s, t), x).0 == merge_column(s, column_item(t, x).0),
        column_item(merge_column(s, t), x).1 == column_item(t, x).1,
{
}

/// The items of two `#[column(...)]` attributes, the first raising no fatal
/// error, set what they set when written in one attribute, and the second
/// stops the reading exactly when it would alone.
pub proof fn law_column_items_split(a: Seq<AttrItem>, b: Seq<AttrItem>, field: Option<usize>, attr: usize)
    requires
        !scan_column_items(a, field, attr).aborted,
    ensures
        scan_column_items(a + b, field, attr).value == merge_column(
            scan_column_items(a, field, attr).value,
            scan_column_items(b, field, attr).value,
        ),
        scan_column_items(a + b, field, attr).aborted == scan_column_items(b, field, attr).aborted,
    decreases b.len(),
{
    if b.len() == 0 {
        assert(a + b =~= a);
    } else {
        let b1 = b.drop_last();
        law_column_items_split(a, b1, field, attr);
        assert((a + b).drop_last() =~= a + b1);
        assert((a + b).last() == b.last());
        let prev = scan_column_items(a + b1, field, attr);
        if !prev.aborted {
            lemma_column_item_merge(
                scan_column_items(a, field, attr).value,
                scan_column_items(b1, field, attr).value,
                b.last(),
            );
        }
    }
}

proof fn lemma_table_item_merge(s: TableAttributesView, t: TableAttributesView, x: AttrItem)
    ensures
        table_item(merge_table(s, t), x).0 == merge_table(s, table_item(t, x).0),
        table_item(merge_table(s, t), x).1 == table_item(t, x).1,
{
}

/// The items of two `#[table(...)]` attributes set what they set when
/// written in one attribute.
pub proof fn law_table_items_split(a: Seq<AttrItem>, b: Seq<AttrItem>, attr: usize)
    ensures
        scan_table_items(a + b, attr).value == merge_table(
            scan_table_items(a, attr).value,
            scan_table_items(b, attr).value,
        ),
    decreases b.len(),
{
    if b.len() == 0 {
        assert(a + b =~= a);
    } else {
        let b1 = b.drop_last();
        law_table_items_split(a, b1, attr);
        assert((a + b).drop_last() =~= a + b1);
        assert((a + b).last() == b.last());
        lemma_table_item_merge(scan_table_items(a, attr).value, scan_table_items(b1, attr).value, b.last());
    }
}

} // verus!
