//! Names of namespace objects: relative references as a statement writes
//! them, and the fully qualified form that the registry is keyed by.

use vstd::prelude::*;
use vstd::string::StrSliceExecFns;

verus! {

/// The name of a catalog, a schema or a table, in owned form.
pub type Id = String;

/// A fully qualified table name as the registry sees it: catalog, schema, table.
pub type TableKey = (Seq<char>, Seq<char>, Seq<char>);

/// A fully qualified schema name as the registry sees it: catalog, schema.
pub type SchemaKey = (Seq<char>, Seq<char>);

/// A reference to a table-like object; catalog and schema may be left out.
#[derive(Debug)]
pub struct TableRef {
    pub catalog: Option<Id>,
    pub schema: Option<Id>,
    pub table: Id,
}

/// A reference to a schema; the catalog may be left out.
#[derive(Debug)]
pub struct SchemaRef {
    pub catalog: Option<Id>,
    pub schema: Id,
}

/// A table reference with every component present.
#[derive(Debug)]
pub struct ResolvedRef {
    pub catalog: Id,
    pub schema: Id,
    pub table: Id,
}

/// A schema reference with every component present.
#[derive(Debug)]
pub struct ResolvedSchema {
    pub catalog: Id,
    pub schema: Id,
}

/// What a [`TableRef`] says, as plain character sequences.
pub struct TableRefView {
    pub catalog: Option<Seq<char>>,
    pub schema: Option<Seq<char>>,
    pub table: Seq<char>,
}

/// What a [`SchemaRef`] says, as plain character sequences.
pub struct SchemaRefView {
    pub catalog: Option<Seq<char>>,
    pub schema: Seq<char>,
}

/// The view of an optional name.
pub open spec fn opt_name(name: Option<Id>) -> Option<Seq<char>> {
    match name {
        Some(n) => Some(n@),
        None => None,
    }
}

/// `name` where it is present, `default` where it is not.
pub open spec fn name_or(name: Option<Seq<char>>, default: Seq<char>) -> Seq<char> {
    match name {
        Some(n) => n,
        None => default,
    }
}

/// Whether `p` can be a part of a dotted name: it is not empty and holds no dot.
pub open spec fn is_part(p: Seq<char>) -> bool {
    p.len() > 0 && forall|i: int| 0 <= i < p.len() ==> p[i] != '.'
}

/// Whether a dotted name can spell the reference: each part that it has
/// can be a part of a dotted name, and it names a catalog only together
/// with a schema.
pub open spec fn spellable(r: TableRefView) -> bool {
    &&& is_part(r.table)
    &&& r.schema matches Some(s) ==> is_part(s)
    &&& r.catalog matches Some(c) ==> is_part(c) && r.schema is Some
}

/// The dotted name of a reference: its parts, joined by dots.
pub open spec fn spelling(r: TableRefView) -> Seq<char> {
    match (r.catalog, r.schema) {
        (Some(c), Some(s)) => c + seq!['.'] + s + seq!['.'] + r.table,
        (None, Some(s)) => s + seq!['.'] + r.table,
        (_, None) => r.table,
    }
}

/// Whether the text is the dotted name of the reference.
pub open spec fn spells(text: Seq<char>, r: TableRefView) -> bool {
    spellable(r) && spelling(r) == text
}

/// The reference that a dotted name spells: one to three parts, none of
/// them empty, joined by dots. A text that is no such name spells none.
pub open spec fn parse_name(text: Seq<char>) -> Option<TableRefView> {
    if exists|r: TableRefView| spells(text, r) {
        Some(choose|r: TableRefView| spells(text, r))
    } else {
        None
    }
}

/// The position of the first `.` in `s` at or after `from`; the length of `s` if there is none.
spec fn next_dot(s: Seq<char>, from: int) -> int
    decreases s.len() - from,
{
    if from >= s.len() {
        s.len() as int
    } else if s[from] == '.' {
        from
    } else {
        next_dot(s, from + 1)
    }
}

/// The reference that a text splits into at its dots, if it has at most
/// two of them and no part between them is empty.
spec fn split_name(s: Seq<char>) -> Option<TableRefView> {
    let a = next_dot(s, 0);
    if a == s.len() {
        if s.len() > 0 {
            Some(TableRefView { catalog: None, schema: None, table: s })
        } else {
            None
        }
    } else {
        let b = next_dot(s, a + 1);
        if b == s.len() {
            if a > 0 && b > a + 1 {
                Some(
                    TableRefView {
                        catalog: None,
                        schema: Some(s.subrange(0, a)),
                        table: s.subrange(a + 1, b),
                    },
                )
            } else {
                None
            }
        } else {
            let c = next_dot(s, b + 1);
            if c == s.len() && a > 0 && b > a + 1 && c > b + 1 {
                Some(
                    TableRefView {
                        catalog: Some(s.subrange(0, a)),
                        schema: Some(s.subrange(a + 1, b)),
                        table: s.subrange(b + 1, c),
                    },
                )
            } else {
                None
            }
        }
    }
}

/// The first dot at or after `from` lies within the text, has no dot
/// between `from` and itself, and is a dot unless it is the end.
proof fn lemma_next_dot(s: Seq<char>, from: int)
    requires
        0 <= from <= s.len(),
    ensures
        from <= next_dot(s, from) <= s.len(),
        forall|i: int| from <= i < next_dot(s, from) ==> s[i] != '.',
        next_dot(s, from) < s.len() ==> s[next_dot(s, from)] == '.',
    decreases s.len() - from,
{
    if from < s.len() && s[from] != '.' {
        lemma_next_dot(s, from + 1);
    }
}

/// Over a stretch without a dot the first dot is found where it is found
/// from the stretch's end.
proof fn lemma_next_dot_over(s: Seq<char>, from: int, to: int)
    requires
        0 <= from <= to <= s.len(),
        forall|i: int| from <= i < to ==> s[i] != '.',
    ensures
        next_dot(s, from) == next_dot(s, to),
    decreases to - from,
{
    if from < to {
        lemma_next_dot_over(s, from + 1, to);
    }
}

/// What a text splits into at its dots is a reference that the text spells.
proof fn lemma_split_spells(s: Seq<char>)
    ensures
        split_name(s) matches Some(r) ==> spells(s, r),
{
    lemma_next_dot(s, 0);
    let a = next_dot(s, 0);
    if a < s.len() {
        lemma_next_dot(s, a + 1);
        let b = next_dot(s, a + 1);
        if b < s.len() {
            lemma_next_dot(s, b + 1);
            let c = next_dot(s, b + 1);
            if c == s.len() && a > 0 && b > a + 1 && c > b + 1 {
                assert(s.subrange(0, a) + seq!['.'] + s.subrange(a + 1, b) + seq!['.']
                    + s.subrange(b + 1, c) =~= s);
            }
        } else if a > 0 && b > a + 1 {
            assert(s.subrange(0, a) + seq!['.'] + s.subrange(a + 1, b) =~= s);
        }
    }
}

/// A text splits at its dots into the reference that it spells.
proof fn lemma_spells_split(s: Seq<char>, r: TableRefView)
    requires
        spells(s, r),
    ensures
        split_name(s) == Some(r),
{
    let n = s.len() as int;
    match (r.catalog, r.schema) {
        (Some(c), Some(x)) => {
            let a = c.len() as int;
            let b = a + 1 + x.len();
            assert(s =~= c + seq!['.'] + x + seq!['.'] + r.table);
            assert forall|i: int| 0 <= i < a implies s[i] != '.' by {
                assert(s[i] == c[i]);
            }
            assert forall|i: int| a + 1 <= i < b implies s[i] != '.' by {
                assert(s[i] == x[i - a - 1]);
            }
            assert forall|i: int| b + 1 <= i < n implies s[i] != '.' by {
                assert(s[i] == r.table[i - b - 1]);
            }
            assert(s[a] == '.' && s[b] == '.');
            lemma_next_dot_over(s, 0, a);
            lemma_next_dot_over(s, a + 1, b);
            lemma_next_dot_over(s, b + 1, n);
            assert(s.subrange(0, a) =~= c);
            assert(s.subrange(a + 1, b) =~= x);
            assert(s.subrange(b + 1, n) =~= r.table);
        },
        (None, Some(x)) => {
            let a = x.len() as int;
            assert(s =~= x + seq!['.'] + r.table);
            assert forall|i: int| 0 <= i < a implies s[i] != '.' by {
                assert(s[i] == x[i]);
            }
            assert forall|i: int| a + 1 <= i < n implies s[i] != '.' by {
                assert(s[i] == r.table[i - a - 1]);
            }
            assert(s[a] == '.');
            lemma_next_dot_over(s, 0, a);
            lemma_next_dot_over(s, a + 1, n);
            assert(s.subrange(0, a) =~= x);
            assert(s.subrange(a + 1, n) =~= r.table);
        },
        (_, None) => {
            assert(r.catalog is None);
            lemma_next_dot_over(s, 0, n);
        },
    }
}

/// The reference that a text spells is what the text splits into at its dots.
proof fn lemma_parse_is_split(text: Seq<char>)
    ensures
        parse_name(text) == split_name(text),
        forall|r: TableRefView| spells(text, r) <==> split_name(text) == Some(r),
{
    lemma_split_spells(text);
    assert forall|r: TableRefView| spells(text, r) implies split_name(text) == Some(r) by {
        lemma_spells_split(text, r);
    }
    if exists|r: TableRefView| spells(text, r) {
        let r = choose|r: TableRefView| spells(text, r);
        lemma_spells_split(text, r);
    }
}

/// A text spells at most one reference: a reference is spelled by the
/// text exactly when it is the one that the text is read as.
pub proof fn lemma_parse_name(text: Seq<char>)
    ensures
        forall|r: TableRefView| spells(text, r) <==> parse_name(text) == Some(r),
{
    lemma_parse_is_split(text);
}

/// The dotted spelling of a fully qualified name.
pub open spec fn qualified_name(key: TableKey) -> Seq<char> {
    key.0 + seq!['.'] + key.1 + seq!['.'] + key.2
}

fn find_dot(text: &str, from: usize, len: usize) -> (pos: usize)
    requires
        len == text@.len(),
        from <= len,
    ensures
        pos == next_dot(text@, from as int),
        from <= pos <= len,
{
    let mut i: usize = from;
    while i < len
        invariant
            len == text@.len(),
            from <= i <= len,
            next_dot(text@, from as int) == next_dot(text@, i as int),
        decreases len - i,
    {
        if text.get_char(i) == '.' {
            return i;
        }
        i = i + 1;
    }
    i
}

fn piece(text: &str, from: usize, to: usize) -> (part: String)
    requires
        from <= to <= text@.len(),
    ensures
        part@ == text@.subrange(from as int, to as int),
{
    text.substring_char(from, to).to_owned()
}

fn clone_opt(name: &Option<Id>) -> (copy: Option<Id>)
    ensures
        copy == *name,
{
    match name {
        Some(n) => Some(n.clone()),
        None => None,
    }
}

impl View for TableRef {
    type V = TableRefView;

    open spec fn view(&self) -> TableRefView {
        TableRefView {
            catalog: opt_name(self.catalog),
            schema: opt_name(self.schema),
            table: self.table@,
        }
    }
}

impl View for SchemaRef {
    type V = SchemaRefView;

    open spec fn view(&self) -> SchemaRefView {
        SchemaRefView { catalog: opt_name(self.catalog), schema: self.schema@ }
    }
}

impl View for ResolvedRef {
    type V = TableKey;

    open spec fn view(&self) -> TableKey {
        (self.catalog@, self.schema@, self.table@)
    }
}

impl View for ResolvedSchema {
    type V = SchemaKey;

    open spec fn view(&self) -> SchemaKey {
        (self.catalog@, self.schema@)
    }
}

impl Clone for TableRef {
    fn clone(&self) -> (copy: Self)
        ensures
            copy == *self,
    {
        TableRef {
            catalog: clone_opt(&self.catalog),
            schema: clone_opt(&self.schema),
            table: self.table.clone(),
        }
    }
}

impl Clone for SchemaRef {
    fn clone(&self) -> (copy: Self)
        ensures
            copy == *self,
    {
        SchemaRef { catalog: clone_opt(&self.catalog), schema: self.schema.clone() }
    }
}

impl Clone for ResolvedRef {
    fn clone(&self) -> (copy: Self)
        ensures
            copy == *self,
    {
        ResolvedRef {
            catalog: self.catalog.clone(),
            schema: self.schema.clone(),
            table: self.table.clone(),
        }
    }
}

impl Clone for ResolvedSchema {
    fn clone(&self) -> (copy: Self)
        ensures
            copy == *self,
    {
        ResolvedSchema { catalog: self.catalog.clone(), schema: self.schema.clone() }
    }
}

impl TableRef {
    /// A reference by table name alone.
    pub fn bare(table: &str) -> (r: TableRef)
        ensures
            r@ == (TableRefView { catalog: None, schema: None, table: table@ }),
    {
        TableRef { catalog: None, schema: None, table: table.to_owned() }
    }

    /// A reference that names every component.
    pub fn full(catalog: &str, schema: &str, table: &str) -> (r: TableRef)
        ensures
            r@ == (TableRefView {
                catalog: Some(catalog@),
                schema: Some(schema@),
                table: table@,
            }),
    {
        TableRef {
            catalog: Some(catalog.to_owned()),
            schema: Some(schema.to_owned()),
            table: table.to_owned(),
        }
    }

    /// Reads a dotted name: one, two or three parts, none of them empty,
    /// joined by dots. The result is the reference that the text spells,
    /// and none where it spells none.
    pub fn parse(text: &str) -> (r: Option<TableRef>)
        ensures
            opt_table_ref(r) == parse_name(text@),
            match r {
                Some(t) => spells(text@, t@),
                None => forall|v: TableRefView| !spells(text@, v),
            },
    {
        proof {
            lemma_parse_is_split(text@);
        }
        let len = text.unicode_len();
        let a = find_dot(text, 0, len);
        if a == len {
            if len > 0 {
                let table = piece(text, 0, len);
                assert(text@.subrange(0, len as int) == text@);
                return Some(TableRef { catalog: None, schema: None, table });
            }
            return None;
        }
        let b = find_dot(text, a + 1, len);
        if b == len {
            if a > 0 && b > a + 1 {
                return Some(
                    TableRef {
                        catalog: None,
                        schema: Some(piece(text, 0, a)),
                        table: piece(text, a + 1, b),
                    },
                );
            }
            return None;
        }
        let c = find_dot(text, b + 1, len);
        if c == len && a > 0 && b > a + 1 && c > b + 1 {
            return Some(
                TableRef {
                    catalog: Some(piece(text, 0, a)),
                    schema: Some(piece(text, a + 1, b)),
                    table: piece(text, b + 1, c),
                },
            );
        }
        None
    }

    /// Fills the components that are left out from the session's defaults.
    pub fn resolve(&self, default_catalog: &Id, default_schema: &Id) -> (r: ResolvedRef)
        ensures
            r@ == resolved_table(self@, default_catalog@, default_schema@),
    {
        let catalog = match &self.catalog {
            Some(c) => c.clone(),
            None => default_catalog.clone(),
        };
        let schema = match &self.schema {
            Some(s) => s.clone(),
            None => default_schema.clone(),
        };
        ResolvedRef { catalog, schema, table: self.table.clone() }
    }
}

impl SchemaRef {
    /// A reference by schema name alone.
    pub fn bare(schema: &str) -> (r: SchemaRef)
        ensures
            r@ == (SchemaRefView { catalog: None, schema: schema@ }),
    {
        SchemaRef { catalog: None, schema: schema.to_owned() }
    }

    /// A reference that names the catalog too.
    pub fn full(catalog: &str, schema: &str) -> (r: SchemaRef)
        ensures
            r@ == (SchemaRefView { catalog: Some(catalog@), schema: schema@ }),
    {
        SchemaRef { catalog: Some(catalog.to_owned()), schema: schema.to_owned() }
    }

    /// Fills a catalog that is left out from the session's default.
    pub fn resolve(&self, default_catalog: &Id) -> (r: ResolvedSchema)
        ensures
            r@ == resolved_schema(self@, default_catalog@),
    {
        let catalog = match &self.catalog {
            Some(c) => c.clone(),
            None => default_catalog.clone(),
        };
        ResolvedSchema { catalog, schema: self.schema.clone() }
    }
}

impl ResolvedRef {
    /// The fully qualified name from its three parts.
    pub fn new(catalog: &str, schema: &str, table: &str) -> (r: ResolvedRef)
        ensures
            r@ == (catalog@, schema@, table@),
    {
        ResolvedRef {
            catalog: catalog.to_owned(),
            schema: schema.to_owned(),
            table: table.to_owned(),
        }
    }

    /// The schema that the table lives in.
    pub fn parent(&self) -> (s: ResolvedSchema)
        ensures
            s@ == (self@.0, self@.1),
    {
        ResolvedSchema { catalog: self.catalog.clone(), schema: self.schema.clone() }
    }

    /// The same name as a reference with every component given.
    pub fn to_table_ref(&self) -> (r: TableRef)
        ensures
            r@ == (TableRefView {
                catalog: Some(self@.0),
                schema: Some(self@.1),
                table: self@.2,
            }),
    {
        TableRef {
            catalog: Some(self.catalog.clone()),
            schema: Some(self.schema.clone()),
            table: self.table.clone(),
        }
    }

    /// The dotted spelling `catalog.schema.table`.
    pub fn qualified(&self) -> (text: String)
        ensures
            text@ == qualified_name(self@),
    {
        proof {
            reveal_strlit(".");
        }
        let text = self.catalog.clone();
        let text = text.concat(".");
        let text = text.concat(self.schema.as_str());
        let text = text.concat(".");
        let text = text.concat(self.table.as_str());
        assert("."@ == seq!['.']);
        text
    }
}

impl ResolvedSchema {
    /// The fully qualified schema name from its two parts.
    pub fn new(catalog: &str, schema: &str) -> (r: ResolvedSchema)
        ensures
            r@ == (catalog@, schema@),
    {
        ResolvedSchema { catalog: catalog.to_owned(), schema: schema.to_owned() }
    }
}

/// The names of a list, as character sequences.
pub open spec fn name_views(s: Seq<Id>) -> Seq<Seq<char>> {
    Seq::new(s.len(), |i: int| s[i]@)
}

/// The qualified schema names of a list.
pub open spec fn schema_views(s: Seq<ResolvedSchema>) -> Seq<SchemaKey> {
    Seq::new(s.len(), |i: int| s[i]@)
}

/// The qualified table names of a list.
pub open spec fn table_views(s: Seq<ResolvedRef>) -> Seq<TableKey> {
    Seq::new(s.len(), |i: int| s[i]@)
}

/// The view of an optional table reference.
pub open spec fn opt_table_ref(r: Option<TableRef>) -> Option<TableRefView> {
    match r {
        Some(t) => Some(t@),
        None => None,
    }
}

/// The fully qualified name that a reference stands for under the given defaults.
pub open spec fn resolved_table(
    r: TableRefView,
    default_catalog: Seq<char>,
    default_schema: Seq<char>,
) -> TableKey {
    (name_or(r.catalog, default_catalog), name_or(r.schema, default_schema), r.table)
}

/// The fully qualified schema name that a reference stands for under the given default.
pub open spec fn resolved_schema(r: SchemaRefView, default_catalog: Seq<char>) -> SchemaKey {
    (name_or(r.catalog, default_catalog), r.schema)
}

} // verus!
