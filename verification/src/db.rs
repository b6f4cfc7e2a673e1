use vstd::prelude::*;

use crate::pattern::{regex_capture_names, regex_captures_all, regex_compiles, Pattern, PatternError};

verus! {

/// A handle on the database file into which log lines are imported.
pub struct Queryable {
    file: String,
}

impl Queryable {
    /// The path of the database file.
    pub closed spec fn path(&self) -> Seq<char> {
        self.file@
    }

    /// Creates a handle on the database file `file`; nothing is opened yet.
    pub fn new(file: &str) -> (q: Self)
        ensures
            q.path() == file@,
    {
        Queryable { file: file.to_owned() }
    }

    /// The path of the database file.
    pub fn file(&self) -> (r: &str)
        ensures
            r@ == self.path(),
    {
        self.file.as_str()
    }
}

/// The names of the named capture groups among `names`, in group order.
pub open spec fn named_groups(names: Seq<Option<Seq<char>>>) -> Seq<Seq<char>>
    decreases names.len(),
{
    if names.len() == 0 {
        Seq::empty()
    } else {
        let rest = named_groups(names.drop_last());
        match names.last() {
            Some(n) => rest.push(n),
            None => rest,
        }
    }
}

/// The group indices of the named capture groups among `names`, in group
/// order.
pub open spec fn named_group_indices(names: Seq<Option<Seq<char>>>) -> Seq<int>
    decreases names.len(),
{
    if names.len() == 0 {
        Seq::empty()
    } else {
        let rest = named_group_indices(names.drop_last());
        match names.last() {
            Some(_) => rest.push(names.len() - 1),
            None => rest,
        }
    }
}

/// The column definitions after the line number: `, <name> STRING` for each
/// column.
pub open spec fn column_defs(columns: Seq<Seq<char>>) -> Seq<char>
    decreases columns.len(),
{
    if columns.len() == 0 {
        Seq::empty()
    } else {
        column_defs(columns.drop_last()) + ", "@ + columns.last() + " STRING"@
    }
}

/// `items` joined by `sep`.
pub open spec fn joined(items: Seq<Seq<char>>, sep: Seq<char>) -> Seq<char>
    decreases items.len(),
{
    if items.len() == 0 {
        Seq::empty()
    } else if items.len() == 1 {
        items[0]
    } else {
        joined(items.drop_last(), sep) + sep + items.last()
    }
}

/// `n` placeholders `?`.
pub open spec fn placeholders(n: nat) -> Seq<Seq<char>> {
    Seq::new(n, |i: int| "?"@)
}

/// The statements that (re)create the table: drop it where it exists, then
/// create it with an integer key `line_no` and a text column per name.
pub open spec fn create_sql(table: Seq<char>, columns: Seq<Seq<char>>) -> Seq<char> {
    "DROP TABLE IF EXISTS "@ + table + ";CREATE TABLE "@ + table
        + " (line_no INTEGER PRIMARY KEY"@ + column_defs(columns) + ");"@
}

/// The statement that inserts one row, a placeholder per column.
pub open spec fn insert_sql(table: Seq<char>, columns: Seq<Seq<char>>) -> Seq<char> {
    "INSERT INTO "@ + table + " ("@ + joined(columns, ", "@) + ") VALUES ("@ + joined(
        placeholders(columns.len()),
        ", "@,
    ) + ")"@
}

/// The text of group `g` in `groups`, or the empty text where it took no
/// part in the match.
pub open spec fn group_text(groups: Seq<Option<Seq<char>>>, g: int) -> Seq<char> {
    if 0 <= g < groups.len() && groups[g] is Some {
        groups[g]->0
    } else {
        Seq::empty()
    }
}

/// The row a match yields: the text of each column's group.
pub open spec fn row_of(indices: Seq<int>, groups: Seq<Option<Seq<char>>>) -> Seq<Seq<char>> {
    indices.map_values(|g: int| group_text(groups, g))
}

/// The rows the matches yield, one per match.
pub open spec fn rows_of(indices: Seq<int>, matches: Seq<Seq<Option<Seq<char>>>>) -> Seq<
    Seq<Seq<char>>,
> {
    matches.map_values(|groups: Seq<Option<Seq<char>>>| row_of(indices, groups))
}

/// The work of importing lines into a table: the compiled line pattern, the
/// table's columns (the pattern's named groups, in group order) and the
/// statements that create the table and insert a row.
pub struct ImportPlan {
    table: String,
    pattern: Pattern,
    columns: Vec<String>,
    groups: Vec<usize>,
    create: String,
    insert: String,
}

impl ImportPlan {
    /// The table's name.
    pub closed spec fn table_name(&self) -> Seq<char> {
        self.table@
    }

    /// The source of the line pattern.
    pub closed spec fn pattern_source(&self) -> Seq<char> {
        self.pattern@
    }

    /// The plan's internal consistency.
    pub closed spec fn wf(&self) -> bool {
        let names = regex_capture_names(self.pattern@);
        &&& self.columns.deep_view() == named_groups(names)
        &&& self.groups@.map_values(|g: usize| g as int) == named_group_indices(names)
        &&& self.create@ == create_sql(self.table@, named_groups(names))
        &&& self.insert@ == insert_sql(self.table@, named_groups(names))
    }
}

/// The names of the named groups among `names` and their group indices, in
/// group order.
pub fn named_columns(names: &Vec<Option<String>>) -> (r: (Vec<String>, Vec<usize>))
    ensures
        r.0.deep_view() == named_groups(names.deep_view()),
        r.1@.map_values(|g: usize| g as int) == named_group_indices(names.deep_view()),
{
    let ghost nv = names.deep_view();
    let mut columns: Vec<String> = Vec::new();
    let mut groups: Vec<usize> = Vec::new();
    let n = names.len();
    let mut i: usize = 0;
    while i < n
        invariant
            n == names.len(),
            nv == names.deep_view(),
            i <= n,
            columns.deep_view() == named_groups(nv.take(i as int)),
            groups@.map_values(|g: usize| g as int) == named_group_indices(nv.take(i as int)),
        decreases n - i,
    {
        assert(nv.take(i + 1).drop_last() =~= nv.take(i as int));
        assert(nv[i as int] == names@[i as int].deep_view());
        match &names[i] {
            Some(name) => {
                columns.push(name.clone());
                groups.push(i);
                assert(groups@.map_values(|g: usize| g as int) =~= named_group_indices(
                    nv.take(i as int),
                ).push(i as int));
            },
            None => {},
        }
        i = i + 1;
    }
    assert(nv.take(n as int) =~= nv);
    (columns, groups)
}

/// The statements that (re)create `table` with an integer key `line_no` and
/// a text column for each of `columns`.
pub fn create_table_sql(table: &str, columns: &Vec<String>) -> (r: String)
    ensures
        r@ == create_sql(table@, columns.deep_view()),
{
    let ghost cv = columns.deep_view();
    let mut defs = String::new();
    let n = columns.len();
    let mut i: usize = 0;
    while i < n
        invariant
            n == columns.len(),
            cv == columns.deep_view(),
            i <= n,
            defs@ == column_defs(cv.take(i as int)),
        decreases n - i,
    {
        assert(cv.take(i + 1).drop_last() =~= cv.take(i as int));
        defs.append(", ");
        defs.append(columns[i].as_str());
        defs.append(" STRING");
        i = i + 1;
    }
    assert(cv.take(n as int) =~= cv);
    let mut r = String::from_str("DROP TABLE IF EXISTS ");
    r.append(table);
    r.append(";CREATE TABLE ");
    r.append(table);
    r.append(" (line_no INTEGER PRIMARY KEY");
    r.append(defs.as_str());
    r.append(");");
    r
}

/// `items` joined by `, `.
fn join_comma(items: &Vec<String>) -> (r: String)
    ensures
        r@ == joined(items.deep_view(), ", "@),
{
    let ghost iv = items.deep_view();
    let mut r = String::new();
    let n = items.len();
    let mut i: usize = 0;
    while i < n
        invariant
            n == items.len(),
            iv == items.deep_view(),
            i <= n,
            r@ == joined(iv.take(i as int), ", "@),
        decreases n - i,
    {
        assert(iv.take(i + 1).drop_last() =~= iv.take(i as int));
        if i > 0 {
            r.append(", ");
        } else {
            assert(r@ == Seq::<char>::empty());
        }
        r.append(items[i].as_str());
        i = i + 1;
    }
    assert(iv.take(n as int) =~= iv);
    r
}

/// The statement that inserts one row into `table`, with a placeholder for
/// each of `columns`.
pub fn insert_row_sql(table: &str, columns: &Vec<String>) -> (r: String)
    ensures
        r@ == insert_sql(table@, columns.deep_view()),
{
    let n = columns.len();
    let mut marks: Vec<String> = Vec::new();
    let mut i: usize = 0;
    while i < n
        invariant
            n == columns.len(),
            i <= n,
            marks.len() == i,
            marks.deep_view() == placeholders(i as nat),
        decreases n - i,
    {
        let ghost before = marks@;
        let ghost before_dv = marks.deep_view();
        let mark = String::from_str("?");
        marks.push(mark);
        assert(marks@ == before.push(mark));
        assert(marks.deep_view() =~= placeholders((i + 1) as nat)) by {
            assert forall|k: int| 0 <= k < i + 1 implies #[trigger] marks.deep_view()[k]
                == placeholders((i + 1) as nat)[k] by {
                if k < i {
                    assert(marks@[k] == before[k]);
                    assert(before_dv[k] == before[k].deep_view());
                    assert(before_dv[k] == placeholders(i as nat)[k]);
                } else {
                    assert(marks@[k] == mark);
                }
            }
        }
        i = i + 1;
    }
    let mut r = String::from_str("INSERT INTO ");
    r.append(table);
    r.append(" (");
    r.append(join_comma(columns).as_str());
    r.append(") VALUES (");
    r.append(join_comma(&marks).as_str());
    r.append(")");
    r
}

/// There is a group index for each named group.
pub proof fn lemma_named_groups_len(names: Seq<Option<Seq<char>>>)
    ensures
        named_groups(names).len() == named_group_indices(names).len(),
    decreases names.len(),
{
    if names.len() > 0 {
        lemma_named_groups_len(names.drop_last());
    }
}

/// Every row an import yields has exactly one value per column of the table
/// (as many as the insert statement has placeholders), and there is one row
/// per match.
pub proof fn lemma_rows_fit_columns(
    names: Seq<Option<Seq<char>>>,
    matches: Seq<Seq<Option<Seq<char>>>>,
)
    ensures
        rows_of(named_group_indices(names), matches).len() == matches.len(),
        forall|i: int|
            0 <= i < matches.len() ==> #[trigger] rows_of(named_group_indices(names), matches)[i].len()
                == named_groups(names).len(),
        placeholders(named_groups(names).len()).len() == named_groups(names).len(),
{
    lemma_named_groups_len(names);
}

/// The statement that makes the import fast: no syncing, no journal.
pub fn pragma_sql() -> (r: &'static str)
    ensures
        r@ == "PRAGMA synchronous = OFF;PRAGMA journal_mode = OFF;"@,
{
    "PRAGMA synchronous = OFF;PRAGMA journal_mode = OFF;"
}

/// The statement that opens the transaction holding the inserted rows.
pub fn begin_sql() -> (r: &'static str)
    ensures
        r@ == "BEGIN TRANSACTION;"@,
{
    "BEGIN TRANSACTION;"
}

/// The statement that closes the transaction holding the inserted rows.
pub fn end_sql() -> (r: &'static str)
    ensures
        r@ == "END TRANSACTION;"@,
{
    "END TRANSACTION;"
}

impl ImportPlan {
    /// The columns of the table: the names of the pattern's named groups.
    pub closed spec fn column_names(&self) -> Seq<Seq<char>> {
        named_groups(regex_capture_names(self.pattern@))
    }

    /// The group index of each column.
    pub closed spec fn column_groups(&self) -> Seq<int> {
        named_group_indices(regex_capture_names(self.pattern@))
    }

    /// Plans the import of lines matching `regex_str` into table `table_name`;
    /// fails where the pattern does not compile.
    pub fn new(table_name: &str, regex_str: &str) -> (r: Result<ImportPlan, PatternError>)
        ensures
            r is Ok <==> regex_compiles(regex_str@),
            r matches Ok(p) ==> {
                &&& p.wf()
                &&& p.table_name() == table_name@
                &&& p.pattern_source() == regex_str@
                &&& p.column_names() == named_groups(regex_capture_names(regex_str@))
                &&& p.column_groups() == named_group_indices(regex_capture_names(regex_str@))
            },
    {
        let pattern = match Pattern::new(regex_str) {
            Ok(p) => p,
            Err(e) => {
                return Err(e);
            },
        };
        let names = pattern.capture_names();
        let (columns, groups) = named_columns(&names);
        let create = create_table_sql(table_name, &columns);
        let insert = insert_row_sql(table_name, &columns);
        Ok(ImportPlan { table: table_name.to_owned(), pattern, columns, groups, create, insert })
    }

    /// The name of the table.
    pub fn table(&self) -> (r: &str)
        ensures
            r@ == self.table_name(),
    {
        self.table.as_str()
    }

    /// The columns of the table after `line_no`.
    pub fn columns(&self) -> (r: &Vec<String>)
        requires
            self.wf(),
        ensures
            r.deep_view() == self.column_names(),
    {
        &self.columns
    }

    /// The statements that (re)create the table.
    pub fn create_statement(&self) -> (r: &str)
        requires
            self.wf(),
        ensures
            r@ == create_sql(self.table_name(), self.column_names()),
    {
        self.create.as_str()
    }

    /// The statement that inserts one row.
    pub fn insert_statement(&self) -> (r: &str)
        requires
            self.wf(),
        ensures
            r@ == insert_sql(self.table_name(), self.column_names()),
    {
        self.insert.as_str()
    }

    /// The rows to insert for `content`: for each successive match of the
    /// pattern, the text of each column's group (empty where the group took
    /// no part in the match).
    pub fn rows(&self, content: &str) -> (r: Vec<Vec<String>>)
        requires
            self.wf(),
        ensures
            r.deep_view() == rows_of(
                self.column_groups(),
                regex_captures_all(self.pattern_source(), content@),
            ),
    {
        let matches = self.pattern.captures_all(content);
        rows_from_matches(&self.groups, &matches)
    }
}

/// The rows that `matches` yield for columns read from the groups `groups`:
/// for each match, the text of each column's group (empty where the group
/// took no part in the match or does not exist).
pub fn rows_from_matches(groups: &Vec<usize>, matches: &Vec<Vec<Option<String>>>) -> (r: Vec<
    Vec<String>,
>)
    ensures
        r.deep_view() == rows_of(groups@.map_values(|g: usize| g as int), matches.deep_view()),
{
    let ghost mv = matches.deep_view();
    let ghost idx = groups@.map_values(|g: usize| g as int);
    let mut rows: Vec<Vec<String>> = Vec::new();
    let n = matches.len();
    let k = groups.len();
    let mut i: usize = 0;
    while i < n
        invariant
            n == matches.len(),
            mv == matches.deep_view(),
            k == groups.len(),
            idx == groups@.map_values(|g: usize| g as int),
            i <= n,
            rows.deep_view() == rows_of(idx, mv.take(i as int)),
        decreases n - i,
    {
        let ghost gv = mv[i as int];
        assert(gv == matches@[i as int].deep_view());
        let mut row: Vec<String> = Vec::new();
        let mut j: usize = 0;
        while j < k
            invariant
                k == groups.len(),
                idx == groups@.map_values(|g: usize| g as int),
                gv == matches@[i as int].deep_view(),
                i < n,
                n == matches.len(),
                j <= k,
                row.deep_view() == row_of(idx.take(j as int), gv),
            decreases k - j,
        {
            let g = groups[j];
            let ghost before = row.deep_view();
            let text = if g < matches[i].len() {
                assert(gv[g as int] == matches@[i as int]@[g as int].deep_view());
                match &matches[i][g] {
                    Some(t) => t.clone(),
                    None => String::new(),
                }
            } else {
                String::new()
            };
            assert(text@ == group_text(gv, idx[j as int]));
            row.push(text);
            assert(row.deep_view() =~= before.push(text@));
            assert(idx.take(j + 1) =~= idx.take(j as int).push(idx[j as int]));
            assert(row_of(idx.take(j + 1), gv) =~= row_of(idx.take(j as int), gv).push(
                group_text(gv, idx[j as int]),
            ));
            j = j + 1;
        }
        assert(idx.take(k as int) =~= idx);
        let ghost before_rows = rows.deep_view();
        rows.push(row);
        assert(rows.deep_view() =~= before_rows.push(row_of(idx, gv)));
        assert(mv.take(i + 1) =~= mv.take(i as int).push(gv));
        assert(rows_of(idx, mv.take(i + 1)) =~= rows_of(idx, mv.take(i as int)).push(
            row_of(idx, gv),
        ));
        i = i + 1;
    }
    assert(mv.take(n as int) =~= mv);
    rows
}


} // verus!
