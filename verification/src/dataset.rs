//! Datasets: tables whose rows seed the variables of a scenario.
//!
//! A table is read from JSON (an array of objects or of single values), from
//! tab-separated text, or from comma-separated text with quotation marks.
//! Cells of a text are strings; JSON values keep their kind. A row that is too
//! short lacks the columns at its end; what a row has too much is reported and
//! left out.
use vstd::prelude::*;

use crate::json::{copy_map, json_parsed, parse_json_text, parsed_view, render};
use crate::map::{lemma_values_by, put, TextMap};
use crate::model::DataBinding;
use crate::text::{
    chars_of, dec, dec_u64, has_prefix, join2, joined, lemma_joined_split, lemma_texts_push, lines, lines_of, one_of, same,
    split, split_by, split_on, starts, text_lt, texts, trim, trim_left, trim_start, trimmed,
};
use crate::value::{
    deep, entries, lemma_array_view, lemma_object_view, values, Json, JsonView,
};

verus! {

broadcast use {lemma_array_view, lemma_object_view};

/// A table.
#[derive(Debug, PartialEq, Eq)]
pub struct Dataset {
    pub id: String,
    pub name: String,
    pub columns: Vec<String>,
    pub rows: Vec<TextMap<Json>>,
    pub created_at: String,
    pub updated_at: String,
}

#[derive(Debug, Clone, Copy, PartialEq, Eq, Structural)]
pub enum Delimiter {
    Auto,
    Tab,
    Comma,
}

impl Default for Delimiter {
    fn default() -> (r: Delimiter)
        ensures
            r == Delimiter::Auto,
    {
        Delimiter::Auto
    }
}

/// What is wrong with a line, counted from one. Line 0 stands for the whole
/// text.
#[derive(Debug, PartialEq, Eq)]
pub struct DatasetParseError {
    pub line: usize,
    pub raw: String,
    pub reason: String,
}

#[derive(Debug, PartialEq, Eq)]
pub struct DatasetParseResult {
    pub columns: Vec<String>,
    pub rows: Vec<TextMap<Json>>,
    pub errors: Vec<DatasetParseError>,
}

pub type Row = Seq<(Seq<char>, JsonView)>;

pub struct ErrorView {
    pub line: int,
    pub raw: Seq<char>,
    pub reason: Seq<char>,
}

pub struct ParseView {
    pub columns: Seq<Seq<char>>,
    pub rows: Seq<Row>,
    pub errors: Seq<ErrorView>,
}

pub open spec fn rows_of(v: Seq<TextMap<Json>>) -> Seq<Row> {
    v.map_values(|r: TextMap<Json>| entries(r@))
}

pub open spec fn errors_of(v: Seq<DatasetParseError>) -> Seq<ErrorView> {
    v.map_values(|e: DatasetParseError| e@)
}

impl DatasetParseError {
    pub open spec fn view(&self) -> ErrorView {
        ErrorView { line: self.line as int, raw: self.raw@, reason: self.reason@ }
    }
}

impl DatasetParseResult {
    pub open spec fn view(&self) -> ParseView {
        ParseView {
            columns: texts(self.columns@),
            rows: rows_of(self.rows@),
            errors: errors_of(self.errors@),
        }
    }
}

proof fn lemma_rows_push(v: Seq<TextMap<Json>>, r: TextMap<Json>)
    ensures
        rows_of(v.push(r)) == rows_of(v).push(entries(r@)),
{
    assert(rows_of(v.push(r)) =~= rows_of(v).push(entries(r@)));
}

proof fn lemma_errors_push(v: Seq<DatasetParseError>, e: DatasetParseError)
    ensures
        errors_of(v.push(e)) == errors_of(v).push(e@),
{
    assert(errors_of(v.push(e)) =~= errors_of(v).push(e@));
}

// ---------------------------------------------------------------------------
// JSON
// ---------------------------------------------------------------------------

/// The columns with `k` among them.
pub open spec fn add_column(columns: Seq<Seq<char>>, k: Seq<char>) -> Seq<Seq<char>> {
    if columns.contains(k) {
        columns
    } else {
        columns.push(k)
    }
}

/// The columns with the first `n` keys of a row among them.
pub open spec fn add_columns(columns: Seq<Seq<char>>, row: Row, n: int) -> Seq<Seq<char>>
    decreases n,
{
    if n <= 0 {
        columns
    } else {
        add_column(add_columns(columns, row, n - 1), row[n - 1].0)
    }
}

/// The table that the first `n` elements of an array make. An object is a row;
/// a single value is a row with the one column `value`; anything else is no
/// row.
pub open spec fn json_table(a: Seq<JsonView>, n: int) -> ParseView
    decreases n,
{
    if n <= 0 {
        ParseView { columns: Seq::empty(), rows: Seq::empty(), errors: Seq::empty() }
    } else {
        let before = json_table(a, n - 1);
        match a[n - 1] {
            JsonView::Object(m) => ParseView {
                columns: add_columns(before.columns, m, m.len() as int),
                rows: before.rows.push(m),
                errors: before.errors,
            },
            JsonView::Str(_) | JsonView::Number(_) | JsonView::Bool(_) => ParseView {
                columns: add_column(before.columns, "value"@),
                rows: before.rows.push(seq![("value"@, a[n - 1])]),
                errors: before.errors,
            },
            other => ParseView {
                columns: before.columns,
                rows: before.rows,
                errors: before.errors.push(
                    ErrorView {
                        line: n,
                        raw: render(other),
                        reason: "row must be an object or scalar"@,
                    },
                ),
            },
        }
    }
}

pub open spec fn whole_error(reason: Seq<char>) -> ParseView {
    ParseView {
        columns: Seq::empty(),
        rows: Seq::empty(),
        errors: seq![ErrorView { line: 0, raw: Seq::empty(), reason }],
    }
}

/// The table that a JSON text makes, given what parsing it returned.
pub open spec fn json_outcome(parsed: Result<JsonView, Seq<char>>) -> ParseView {
    match parsed {
        Ok(JsonView::Array(a)) => json_table(a, a.len() as int),
        Ok(_) => whole_error("JSON must be an array"@),
        Err(e) => whole_error("invalid JSON: "@ + e),
    }
}

fn add_key(columns: &mut Vec<String>, k: &str)
    ensures
        texts(final(columns)@) == add_column(texts(old(columns)@), k@),
{
    if !crate::text::has_text(columns, k) {
        let s = k.to_owned();
        proof {
            lemma_texts_push(columns@, s);
        }
        columns.push(s);
    }
}

fn whole_failure(reason: String) -> (r: DatasetParseResult)
    ensures
        r@ == whole_error(reason@),
{
    let mut errors: Vec<DatasetParseError> = Vec::new();
    errors.push(DatasetParseError { line: 0, raw: String::new(), reason });
    let r = DatasetParseResult { columns: Vec::new(), rows: Vec::new(), errors };
    assert(r@.columns =~= Seq::<Seq<char>>::empty());
    assert(r@.rows =~= Seq::<Row>::empty());
    assert(r@.errors =~= whole_error(reason@).errors);
    r
}

/// The table that a JSON text makes, given what parsing it returned.
pub fn table_from_json(parsed: Result<Json, String>) -> (r: DatasetParseResult)
    ensures
        r@ == json_outcome(parsed_view(parsed)),
{
    match parsed {
        Ok(Json::Array(a)) => {
            let ghost all = values(a@);
            let mut columns: Vec<String> = Vec::new();
            let mut rows: Vec<TextMap<Json>> = Vec::new();
            let mut errors: Vec<DatasetParseError> = Vec::new();
            let mut i: usize = 0;
            assert(texts(columns@) =~= Seq::<Seq<char>>::empty());
            assert(rows_of(rows@) =~= Seq::<Row>::empty());
            assert(errors_of(errors@) =~= Seq::<ErrorView>::empty());
            while i < a.len()
                invariant
                    i <= a@.len(),
                    all == values(a@),
                    json_table(all, i as int) == (ParseView {
                        columns: texts(columns@),
                        rows: rows_of(rows@),
                        errors: errors_of(errors@),
                    }),
                decreases a@.len() - i,
            {
                assert(all[i as int] == a@[i as int]@);
                match &a[i] {
                    Json::Object(m) => {
                        let ghost before = texts(columns@);
                        let mut k: usize = 0;
                        while k < m.len()
                            invariant
                                k <= m@.len(),
                                texts(columns@) == add_columns(before, entries(m@), k as int),
                            decreases m@.len() - k,
                        {
                            add_key(&mut columns, m.key_at(k).as_str());
                            k = k + 1;
                        }
                        let row = copy_map(m);
                        proof {
                            lemma_rows_push(rows@, row);
                        }
                        rows.push(row);
                    },
                    Json::Null => {
                        push_bad_row(&mut errors, i, &a[i]);
                    },
                    Json::Array(_) => {
                        push_bad_row(&mut errors, i, &a[i]);
                    },
                    other => {
                        add_key(&mut columns, "value");
                        let mut m: TextMap<Json> = TextMap::new();
                        let v = other.copy();
                        proof {
                            lemma_values_by(m@, deep(), "value"@, v);
                            assert(entries(m@) =~= Seq::<(Seq<char>, JsonView)>::empty());
                        }
                        m.insert("value".to_owned(), v);
                        proof {
                            lemma_rows_push(rows@, m);
                        }
                        rows.push(m);
                    },
                }
                i = i + 1;
            }
            DatasetParseResult { columns, rows, errors }
        },
        Ok(_) => whole_failure("JSON must be an array".to_owned()),
        Err(e) => whole_failure(join2("invalid JSON: ", e.as_str())),
    }
}

fn push_bad_row(errors: &mut Vec<DatasetParseError>, i: usize, v: &Json)
    requires
        i < usize::MAX,
    ensures
        errors_of(final(errors)@) == errors_of(old(errors)@).push(
            ErrorView {
                line: i + 1,
                raw: render(v@),
                reason: "row must be an object or scalar"@,
            },
        ),
{
    let e = DatasetParseError {
        line: i + 1,
        raw: v.render(),
        reason: "row must be an object or scalar".to_owned(),
    };
    proof {
        lemma_errors_push(errors@, e);
    }
    errors.push(e);
}

/// The table that a JSON text makes.
pub fn parse_json(content: &str) -> (r: DatasetParseResult)
    ensures
        r@ == json_outcome(json_parsed(content@)),
{
    table_from_json(parse_json_text(content))
}

// ---------------------------------------------------------------------------
// Delimited text
// ---------------------------------------------------------------------------

/// The lines that hold more than white space, with their numbers.
pub open spec fn data_lines(l: Seq<Seq<char>>) -> Seq<(int, Seq<char>)>
    decreases l.len(),
{
    if l.len() == 0 {
        Seq::empty()
    } else {
        let before = data_lines(l.drop_last());
        if trim(l.last()).len() == 0 {
            before
        } else {
            before.push((l.len() as int, l.last()))
        }
    }
}

pub open spec fn numbered(v: Seq<(usize, String)>) -> Seq<(int, Seq<char>)> {
    v.map_values(|p: (usize, String)| (p.0 as int, p.1@))
}

fn numbered_lines(content: &str) -> (r: Vec<(usize, String)>)
    ensures
        numbered(r@) == data_lines(lines(content@)),
        r@.len() == data_lines(lines(content@)).len(),
{
    let all = lines_of(content);
    let ghost l = texts(all@);
    let mut out: Vec<(usize, String)> = Vec::new();
    let mut i: usize = 0;
    assert(l.take(0) =~= Seq::<Seq<char>>::empty());
    assert(numbered(out@) =~= Seq::<(int, Seq<char>)>::empty());
    while i < all.len()
        invariant
            i <= all@.len(),
            l == texts(all@),
            numbered(out@) == data_lines(l.take(i as int)),
        decreases all@.len() - i,
    {
        assert(l.take(i as int + 1).drop_last() =~= l.take(i as int));
        if !trimmed(all[i].as_str()).as_str().is_empty() {
            let e = (i + 1, all[i].clone());
            assert(numbered(out@.push(e)) =~= numbered(out@).push((e.0 as int, e.1@)));
            out.push(e);
        }
        i = i + 1;
    }
    assert(l.take(l.len() as int) =~= l);
    assert(numbered(out@).len() == out@.len());
    out
}

/// The separator that the first line with something in it suggests.
pub open spec fn sniffed(content: Seq<char>) -> char {
    let d = data_lines(lines(content));
    if d.len() > 0 && !trim(d[0].1).contains('\t') && trim(d[0].1).contains(',') {
        ','
    } else {
        '\t'
    }
}

fn has_char(s: &str, c: char) -> (r: bool)
    ensures
        r == s@.contains(c),
{
    let cs = chars_of(s);
    let mut i: usize = 0;
    while i < cs.len()
        invariant
            i <= cs@.len(),
            cs@ == s@,
            forall|j: int| 0 <= j < i ==> cs@[j] != c,
        decreases cs@.len() - i,
    {
        if cs[i] == c {
            return true;
        }
        i = i + 1;
    }
    false
}

/// The separator that the text suggests.
pub fn sniff(content: &str) -> (r: char)
    ensures
        r == sniffed(content@),
{
    let d = numbered_lines(content);
    if d.len() == 0 {
        return '\t';
    }
    assert(numbered(d@)[0].1 == d@[0].1@);
    let l = trimmed(d[0].1.as_str());
    if has_char(l.as_str(), '\t') {
        return '\t';
    }
    if has_char(l.as_str(), ',') {
        return ',';
    }
    '\t'
}

/// The cells of a comma-separated line from position `i` on, with the cells
/// `done`, the characters `cur` of the cell at hand, and whether that cell is
/// inside quotation marks. Inside them, two quotation marks stand for one.
pub open spec fn csv_cells(
    s: Seq<char>,
    sep: char,
    i: int,
    done: Seq<Seq<char>>,
    cur: Seq<char>,
    in_quotes: bool,
) -> Seq<Seq<char>>
    decreases s.len() - i,
{
    if i < 0 || i >= s.len() {
        done.push(cur)
    } else if in_quotes {
        if s[i] == '"' {
            if i + 1 < s.len() && s[i + 1] == '"' {
                csv_cells(s, sep, i + 2, done, cur.push('"'), true)
            } else {
                csv_cells(s, sep, i + 1, done, cur, false)
            }
        } else {
            csv_cells(s, sep, i + 1, done, cur.push(s[i]), true)
        }
    } else if s[i] == '"' {
        csv_cells(s, sep, i + 1, done, cur, true)
    } else if s[i] == sep {
        csv_cells(s, sep, i + 1, done.push(cur), Seq::empty(), false)
    } else {
        csv_cells(s, sep, i + 1, done, cur.push(s[i]), false)
    }
}

/// The cells of a line. Tabs cut it wherever they stand.
pub open spec fn row_cells(line: Seq<char>, sep: char) -> Seq<Seq<char>> {
    if sep == '\t' {
        split(line, seq!['\t'])
    } else {
        csv_cells(line, sep, 0, Seq::empty(), Seq::empty(), false)
    }
}

/// Without quotation marks, a line is cut at its separators and nowhere else.
pub proof fn lemma_csv_plain(line: Seq<char>, sep: char)
    requires
        !line.contains('"'),
    ensures
        row_cells(line, sep) == split(line, seq![sep]),
{
    if sep != '\t' {
        assert(line.take(0) =~= Seq::<char>::empty());
        assert(Seq::<Seq<char>>::empty().push(Seq::<char>::empty()) =~= seq![Seq::<char>::empty()]);
        lemma_csv_plain_from(line, sep, 0, Seq::empty(), Seq::empty());
    }
}

proof fn lemma_csv_plain_from(
    s: Seq<char>,
    sep: char,
    i: int,
    done: Seq<Seq<char>>,
    cur: Seq<char>,
)
    requires
        0 <= i <= s.len(),
        !s.contains('"'),
        done.push(cur) == split_by(s.take(i), one_of(seq![sep])),
    ensures
        csv_cells(s, sep, i, done, cur, false) == split_by(s, one_of(seq![sep])),
    decreases s.len() - i,
{
    if i == s.len() {
        assert(s.take(i) =~= s);
    } else {
        assert(s[i] != '"');
        assert(s.take(i + 1).drop_last() =~= s.take(i));
        assert(done.push(cur).drop_last() =~= done);
        assert(seq![sep].contains(s[i]) <==> s[i] == sep) by {
            assert(seq![sep][0] == sep);
        }
        if s[i] == sep {
            lemma_csv_plain_from(s, sep, i + 1, done.push(cur), Seq::empty());
        } else {
            lemma_csv_plain_from(s, sep, i + 1, done, cur.push(s[i]));
        }
    }
}

/// `s` with every quotation mark doubled.
pub open spec fn doubled(s: Seq<char>) -> Seq<char>
    decreases s.len(),
{
    if s.len() == 0 {
        Seq::empty()
    } else if s[0] == '"' {
        seq!['"', '"'] + doubled(s.drop_first())
    } else {
        seq![s[0]] + doubled(s.drop_first())
    }
}

/// A cell between quotation marks, those inside it doubled.
pub open spec fn quoted_cell(cell: Seq<char>) -> Seq<char> {
    seq!['"'] + doubled(cell) + seq!['"']
}

pub open spec fn quoted_cells(cells: Seq<Seq<char>>) -> Seq<Seq<char>> {
    cells.map_values(|c: Seq<char>| quoted_cell(c))
}

/// Cells written between quotation marks, those inside them doubled, with the
/// separator between the cells, are read back as they were, whatever they hold.
pub proof fn lemma_csv_quoted(cells: Seq<Seq<char>>, sep: char)
    requires
        cells.len() > 0,
        sep != '\t',
        sep != '"',
    ensures
        row_cells(joined(quoted_cells(cells), seq![sep]), sep) == cells,
{
    let q = quoted_cells(cells);
    let line = joined(q, seq![sep]);
    assert(q.take(q.len() as int) =~= q);
    assert(line.take(line.len() as int) =~= line);
    lemma_csv_quoted_upto(cells, sep, line, cells.len() as int);
    assert(cells.drop_last().push(cells.last()) =~= cells);
    assert(cells.take(cells.len() - 1) =~= cells.drop_last());
}

/// Cells without tabs, with tabs between them, are read back as they were,
/// quotation marks among them.
pub proof fn lemma_tabs_read_back(cells: Seq<Seq<char>>)
    requires
        cells.len() > 0,
        forall|i: int| 0 <= i < cells.len() ==> !(#[trigger] cells[i]).contains('\t'),
    ensures
        row_cells(joined(cells, seq!['\t']), '\t') == cells,
{
    lemma_joined_split(cells, '\t');
}

/// The first `k` cells of a line have been read.
proof fn lemma_csv_quoted_upto(cells: Seq<Seq<char>>, sep: char, line: Seq<char>, k: int)
    requires
        1 <= k <= cells.len(),
        sep != '"',
        ({
            let p = joined(quoted_cells(cells).take(k), seq![sep]);
            &&& p.len() <= line.len()
            &&& line.take(p.len() as int) == p
            &&& p.len() < line.len() ==> line[p.len() as int] == sep
        }),
    ensures
        csv_cells(line, sep, 0, Seq::empty(), Seq::empty(), false) == csv_cells(
            line,
            sep,
            joined(quoted_cells(cells).take(k), seq![sep]).len() as int,
            cells.take(k - 1),
            cells[k - 1],
            false,
        ),
    decreases k,
{
    let q = quoted_cells(cells);
    let p = joined(q.take(k), seq![sep]);
    let cell = cells[k - 1];
    let e = quoted_cell(cell);
    assert(q[k - 1] == e);
    if k == 1 {
        assert(q.take(1) =~= seq![e]);
        assert(p =~= e);
        lemma_csv_run(line, sep, 0, Seq::empty(), cell);
        assert(cells.take(0) =~= Seq::<Seq<char>>::empty());
    } else {
        let before = joined(q.take(k - 1), seq![sep]);
        assert(q.take(k).drop_last() =~= q.take(k - 1));
        assert(p =~= before + seq![sep] + e);
        let n = before.len() as int;
        assert(line.take(n) =~= before) by {
            assert(line.take(p.len() as int).take(n) =~= line.take(n));
            assert(p.take(n) =~= before);
        }
        assert(line[n] == p[n]) by {
            assert(line.take(p.len() as int)[n] == line[n]);
        }
        lemma_csv_quoted_upto(cells, sep, line, k - 1);
        assert(cells.take(k - 2).push(cells[k - 2]) =~= cells.take(k - 1));
        assert(line.subrange(n + 1, n + 1 + e.len()) =~= e) by {
            assert forall|i: int| 0 <= i < e.len() implies line[n + 1 + i] == e[i] by {
                assert(line.take(p.len() as int)[n + 1 + i] == p[n + 1 + i]);
            }
        }
        lemma_csv_run(line, sep, n + 1, cells.take(k - 1), cell);
    }
}

/// Reading a cell between quotation marks.
proof fn lemma_csv_run(
    s: Seq<char>,
    sep: char,
    i: int,
    done: Seq<Seq<char>>,
    cell: Seq<char>,
)
    requires
        0 <= i,
        i + quoted_cell(cell).len() <= s.len(),
        s.subrange(i, i + quoted_cell(cell).len()) == quoted_cell(cell),
        i + quoted_cell(cell).len() < s.len() ==> s[i + quoted_cell(cell).len()] != '"',
    ensures
        csv_cells(s, sep, i, done, Seq::empty(), false) == csv_cells(
            s,
            sep,
            i + quoted_cell(cell).len(),
            done,
            cell,
            false,
        ),
{
    let e = quoted_cell(cell);
    assert(s[i] == e[0]) by {
        assert(s.subrange(i, i + e.len())[0] == s[i]);
    }
    assert forall|k: int| 0 <= k < doubled(cell).len() + 1 implies s[i + 1 + k] == (doubled(
        cell,
    ).push('"'))[k] by {
        assert(s.subrange(i, i + e.len())[k + 1] == e[k + 1]);
    }
    lemma_csv_inside(s, sep, i + 1, done, Seq::empty(), cell);
    assert(Seq::<char>::empty() + cell =~= cell);
}

proof fn lemma_csv_inside(
    s: Seq<char>,
    sep: char,
    i: int,
    done: Seq<Seq<char>>,
    cur: Seq<char>,
    rest: Seq<char>,
)
    requires
        0 <= i,
        i + doubled(rest).len() + 1 <= s.len(),
        forall|k: int|
            0 <= k < doubled(rest).len() + 1 ==> #[trigger] s[i + k] == (doubled(rest).push(
                '"',
            ))[k],
        i + doubled(rest).len() + 1 < s.len() ==> s[i + doubled(rest).len() + 1] != '"',
    ensures
        csv_cells(s, sep, i, done, cur, true) == csv_cells(
            s,
            sep,
            i + doubled(rest).len() + 1,
            done,
            cur + rest,
            false,
        ),
    decreases rest.len(),
{
    let d = doubled(rest);
    if rest.len() == 0 {
        assert(s[i + 0] == d.push('"')[0]);
        assert(cur + rest =~= cur);
    } else {
        let tail = rest.drop_first();
        let t = doubled(tail);
        assert(s[i + 0] == d.push('"')[0]);
        if rest[0] == '"' {
            assert(s[i + 1] == d.push('"')[1]);
            assert forall|k: int| 0 <= k < t.len() + 1 implies #[trigger] s[i + 2 + k] == t.push(
                '"',
            )[k] by {
                assert(s[i + (k + 2)] == d.push('"')[k + 2]);
            }
            lemma_csv_inside(s, sep, i + 2, done, cur.push('"'), tail);
            assert(cur.push('"') + tail =~= cur + rest);
        } else {
            assert forall|k: int| 0 <= k < t.len() + 1 implies #[trigger] s[i + 1 + k] == t.push(
                '"',
            )[k] by {
                assert(s[i + (k + 1)] == d.push('"')[k + 1]);
            }
            lemma_csv_inside(s, sep, i + 1, done, cur.push(rest[0]), tail);
            assert(cur.push(rest[0]) + tail =~= cur + rest);
        }
    }
}

/// The cells of a line.
pub fn split_row(line: &str, sep: char) -> (r: Vec<String>)
    ensures
        texts(r@) == row_cells(line@, sep),
{
    if sep == '\t' {
        let tab: [char; 1] = ['\t'];
        assert(tab@ =~= seq!['\t']);
        return split_on(line, &tab);
    }
    let cs = chars_of(line);
    let mut out: Vec<String> = Vec::new();
    let mut cur = String::new();
    let mut in_q: bool = false;
    let mut i: usize = 0;
    let n: usize = cs.len();
    assert(texts(out@) =~= Seq::<Seq<char>>::empty());
    while i < n
        invariant
            i <= n,
            n == cs@.len(),
            cs@ == line@,
            sep != '\t',
            row_cells(line@, sep) == csv_cells(cs@, sep, i as int, texts(out@), cur@, in_q),
        decreases n - i,
    {
        let c = cs[i];
        if in_q {
            if c == '"' {
                if i + 1 < n && cs[i + 1] == '"' {
                    cur.push('"');
                    i = i + 1;
                } else {
                    in_q = false;
                }
            } else {
                cur.push(c);
            }
        } else if c == '"' {
            in_q = true;
        } else if c == sep {
            proof {
                lemma_texts_push(out@, cur);
            }
            out.push(cur);
            cur = String::new();
        } else {
            cur.push(c);
        }
        i = i + 1;
    }
    proof {
        lemma_texts_push(out@, cur);
    }
    out.push(cur);
    out
}

/// How often `x` stands among the first `n` of `s`.
pub open spec fn count_upto(s: Seq<Seq<char>>, x: Seq<char>, n: int) -> nat
    decreases n,
{
    if n <= 0 {
        0
    } else {
        count_upto(s, x, n - 1) + if s[n - 1] == x {
            1nat
        } else {
            0nat
        }
    }
}

/// The column names, told apart: the first of a name keeps it, the second
/// gets `_2` behind it, and so on.
pub open spec fn told_apart(s: Seq<Seq<char>>) -> Seq<Seq<char>> {
    Seq::new(
        s.len(),
        |i: int|
            {
                let n = count_upto(s, s[i], i);
                if n > 0 {
                    s[i] + "_"@ + dec((n + 1) as nat)
                } else {
                    s[i]
                }
            },
    )
}

proof fn lemma_count_upto(s: Seq<Seq<char>>, x: Seq<char>, n: int)
    requires
        0 <= n,
    ensures
        count_upto(s, x, n) <= n,
    decreases n,
{
    if n > 0 {
        lemma_count_upto(s, x, n - 1);
    }
}

/// Names that are all different stay as they are.
pub proof fn lemma_told_apart_distinct(s: Seq<Seq<char>>)
    requires
        s.no_duplicates(),
    ensures
        told_apart(s) == s,
{
    assert forall|i: int| 0 <= i < s.len() implies count_upto(s, s[i], i) == 0 by {
        lemma_count_none(s, i, i);
    }
    assert(told_apart(s) =~= s);
}

proof fn lemma_count_none(s: Seq<Seq<char>>, i: int, n: int)
    requires
        s.no_duplicates(),
        n <= i < s.len(),
    ensures
        count_upto(s, s[i], n) == 0,
    decreases n,
{
    if n > 0 {
        lemma_count_none(s, i, n - 1);
        assert(s[n - 1] != s[i]);
    }
}

/// Tells equal column names apart.
pub fn dedup_columns(cols: &mut Vec<String>)
    ensures
        texts(final(cols)@) == told_apart(texts(old(cols)@)),
        final(cols)@.len() == old(cols)@.len(),
{
    let ghost s = texts(cols@);
    let mut out: Vec<String> = Vec::new();
    let mut i: usize = 0;
    while i < cols.len()
        invariant
            i <= cols@.len(),
            s == texts(cols@),
            out@.len() == i,
            texts(out@) =~= told_apart(s).take(i as int),
        decreases cols@.len() - i,
    {
        let mut n: usize = 0;
        let mut k: usize = 0;
        while k < i
            invariant
                k <= i < cols@.len(),
                s == texts(cols@),
                n <= k,
                n == count_upto(s, s[i as int], k as int),
            decreases i - k,
        {
            if same(cols[k].as_str(), cols[i].as_str()) {
                n = n + 1;
            }
            k = k + 1;
        }
        let mut name = cols[i].clone();
        if n > 0 {
            name.append("_");
            name.append(dec_u64(n as u64 + 1).as_str());
        }
        proof {
            lemma_texts_push(out@, name);
        }
        out.push(name);
        i = i + 1;
    }
    assert(told_apart(s).take(s.len() as int) =~= told_apart(s));
    *cols = out;
}

/// The column names of a header line: its cells without the white space
/// around them, an empty one named by its place.
pub open spec fn header_names(cells: Seq<Seq<char>>) -> Seq<Seq<char>> {
    Seq::new(
        cells.len(),
        |i: int|
            {
                let t = trim(cells[i]);
                if t.len() == 0 {
                    "col"@ + dec((i + 1) as nat)
                } else {
                    t
                }
            },
    )
}

/// The names of `n` columns without a header.
pub open spec fn plain_names(n: int) -> Seq<Seq<char>> {
    if n == 1 {
        seq!["value"@]
    } else {
        Seq::new(n as nat, |i: int| "col"@ + dec((i + 1) as nat))
    }
}

/// The row with the first `n` cells under their columns, as far as there are
/// cells.
pub open spec fn row_upto(columns: Seq<Seq<char>>, cells: Seq<Seq<char>>, n: int) -> Row
    decreases n,
{
    if n <= 0 {
        Seq::empty()
    } else if n - 1 < cells.len() {
        put(row_upto(columns, cells, n - 1), columns[n - 1], JsonView::Str(trim(cells[n - 1])))
    } else {
        row_upto(columns, cells, n - 1)
    }
}

pub open spec fn too_many(cells: int, columns: int) -> Seq<char> {
    dec(cells as nat) + " cells > "@ + dec(columns as nat) + " columns; extra truncated"@
}

/// The rows of the lines `start..n`, and what is wrong with them.
pub open spec fn table_rows(
    d: Seq<(int, Seq<char>)>,
    sep: char,
    columns: Seq<Seq<char>>,
    start: int,
    n: int,
) -> (Seq<Row>, Seq<ErrorView>)
    decreases n,
{
    if n <= start || n <= 0 {
        (Seq::empty(), Seq::empty())
    } else {
        let (rows, errors) = table_rows(d, sep, columns, start, n - 1);
        let cells = row_cells(d[n - 1].1, sep);
        (
            rows.push(row_upto(columns, cells, columns.len() as int)),
            if cells.len() > columns.len() {
                errors.push(
                    ErrorView {
                        line: d[n - 1].0,
                        raw: d[n - 1].1,
                        reason: too_many(cells.len() as int, columns.len() as int),
                    },
                )
            } else {
                errors
            },
        )
    }
}

pub open spec fn separator(content: Seq<char>, delim: Delimiter) -> char {
    match delim {
        Delimiter::Tab => '\t',
        Delimiter::Comma => ',',
        Delimiter::Auto => sniffed(content),
    }
}

/// The table that a delimited text makes.
pub open spec fn delimited_table(
    content: Seq<char>,
    delim: Delimiter,
    has_header: bool,
) -> ParseView {
    let sep = separator(content, delim);
    let d = data_lines(lines(content));
    if d.len() == 0 {
        ParseView { columns: Seq::empty(), rows: Seq::empty(), errors: Seq::empty() }
    } else {
        let first = row_cells(d[0].1, sep);
        let columns = if has_header {
            told_apart(header_names(first))
        } else {
            plain_names(first.len() as int)
        };
        let start = if has_header {
            1int
        } else {
            0int
        };
        let (rows, errors) = table_rows(d, sep, columns, start, d.len() as int);
        ParseView { columns, rows, errors }
    }
}

fn name_header(cells: &Vec<String>) -> (r: Vec<String>)
    ensures
        texts(r@) == header_names(texts(cells@)),
{
    let ghost all = texts(cells@);
    let mut out: Vec<String> = Vec::new();
    let mut i: usize = 0;
    while i < cells.len()
        invariant
            i <= cells@.len(),
            all == texts(cells@),
            texts(out@) =~= header_names(all).take(i as int),
        decreases cells@.len() - i,
    {
        let t = trimmed(cells[i].as_str());
        let name = if t.as_str().is_empty() {
            join2("col", dec_u64(i as u64 + 1).as_str())
        } else {
            t
        };
        proof {
            lemma_texts_push(out@, name);
        }
        out.push(name);
        i = i + 1;
    }
    assert(header_names(all).take(all.len() as int) =~= header_names(all));
    out
}

fn name_columns(n: usize) -> (r: Vec<String>)
    ensures
        texts(r@) == plain_names(n as int),
{
    let mut out: Vec<String> = Vec::new();
    if n == 1 {
        out.push("value".to_owned());
        assert(texts(out@) =~= plain_names(1));
        return out;
    }
    let mut i: usize = 0;
    while i < n
        invariant
            i <= n,
            n != 1,
            texts(out@) =~= plain_names(n as int).take(i as int),
        decreases n - i,
    {
        let name = join2("col", dec_u64(i as u64 + 1).as_str());
        proof {
            lemma_texts_push(out@, name);
        }
        out.push(name);
        i = i + 1;
    }
    assert(plain_names(n as int).take(n as int) =~= plain_names(n as int));
    out
}

fn make_row(columns: &Vec<String>, cells: &Vec<String>) -> (r: TextMap<Json>)
    ensures
        entries(r@) == row_upto(texts(columns@), texts(cells@), columns@.len() as int),
{
    let mut m: TextMap<Json> = TextMap::new();
    let mut i: usize = 0;
    assert(entries(m@) =~= Seq::<(Seq<char>, JsonView)>::empty());
    while i < columns.len()
        invariant
            i <= columns@.len(),
            entries(m@) == row_upto(texts(columns@), texts(cells@), i as int),
        decreases columns@.len() - i,
    {
        if i < cells.len() {
            let v = Json::Str(trimmed(cells[i].as_str()));
            proof {
                lemma_values_by(m@, deep(), columns@[i as int]@, v);
            }
            m.insert(columns[i].clone(), v);
        }
        i = i + 1;
    }
    m
}

fn too_many_text(cells: usize, columns: usize) -> (r: String)
    ensures
        r@ == too_many(cells as int, columns as int),
{
    let mut out = dec_u64(cells as u64);
    out.append(" cells > ");
    out.append(dec_u64(columns as u64).as_str());
    out.append(" columns; extra truncated");
    out
}

/// The table that a delimited text makes.
pub fn parse_delimited(content: &str, delim: Delimiter, has_header: bool) -> (r: DatasetParseResult)
    ensures
        r@ == delimited_table(content@, delim, has_header),
{
    let sep: char = match delim {
        Delimiter::Tab => '\t',
        Delimiter::Comma => ',',
        Delimiter::Auto => sniff(content),
    };
    let d = numbered_lines(content);
    let ghost dl = numbered(d@);
    let mut rows: Vec<TextMap<Json>> = Vec::new();
    let mut errors: Vec<DatasetParseError> = Vec::new();
    assert(rows_of(rows@) =~= Seq::<Row>::empty());
    assert(errors_of(errors@) =~= Seq::<ErrorView>::empty());
    if d.len() == 0 {
        let columns: Vec<String> = Vec::new();
        assert(texts(columns@) =~= Seq::<Seq<char>>::empty());
        return DatasetParseResult { columns, rows, errors };
    }
    assert(dl[0].1 == d@[0].1@);
    let first = split_row(d[0].1.as_str(), sep);
    let columns: Vec<String>;
    let start: usize;
    if has_header {
        let mut names = name_header(&first);
        dedup_columns(&mut names);
        columns = names;
        start = 1;
    } else {
        columns = name_columns(first.len());
        assert(texts(first@).len() == first@.len());
        start = 0;
    }
    let mut i: usize = start;
    while i < d.len()
        invariant
            start <= i <= d@.len(),
            dl == numbered(d@),
            table_rows(dl, sep, texts(columns@), start as int, i as int) == (
                rows_of(rows@),
                errors_of(errors@),
            ),
        decreases d@.len() - i,
    {
        assert(dl[i as int] == (d@[i as int].0 as int, d@[i as int].1@));
        let cells = split_row(d[i].1.as_str(), sep);
        assert(texts(cells@).len() == cells@.len());
        assert(texts(columns@).len() == columns@.len());
        if cells.len() > columns.len() {
            let e = DatasetParseError {
                line: d[i].0,
                raw: d[i].1.clone(),
                reason: too_many_text(cells.len(), columns.len()),
            };
            proof {
                lemma_errors_push(errors@, e);
            }
            errors.push(e);
        }
        let row = make_row(&columns, &cells);
        proof {
            lemma_rows_push(rows@, row);
        }
        rows.push(row);
        i = i + 1;
    }
    DatasetParseResult { columns, rows, errors }
}

/// The table that a text makes: JSON where it begins with a bracket.
pub open spec fn dataset_table(content: Seq<char>, delim: Delimiter, has_header: bool) -> ParseView {
    if starts(trim_start(content), seq!['[']) {
        json_outcome(json_parsed(content))
    } else {
        delimited_table(content, delim, has_header)
    }
}

/// Reads a table from a text.
pub fn parse_dataset(content: &str, delim: Delimiter, has_header: bool) -> (r: DatasetParseResult)
    ensures
        r@ == dataset_table(content@, delim, has_header),
{
    proof {
        reveal_strlit("[");
        assert("["@ =~= seq!['[']);
    }
    if has_prefix(trim_left(content).as_str(), "[") {
        return parse_json(content);
    }
    parse_delimited(content, delim, has_header)
}

// ---------------------------------------------------------------------------
// Seeding variables
// ---------------------------------------------------------------------------

/// The variables that a row seeds: one that holds the row where the binding
/// names one, else one for each column.
pub open spec fn seed(prefix: Option<Seq<char>>, row: Row) -> Row {
    match prefix {
        Some(p) => if p.len() > 0 {
            seq![(p, JsonView::Object(row))]
        } else {
            row
        },
        None => row,
    }
}

/// The variables that a row seeds.
pub fn build_seed(binding: &DataBinding, row: &TextMap<Json>) -> (r: TextMap<Json>)
    ensures
        entries(r@) == seed(binding@.prefix, entries(row@)),
{
    match &binding.prefix {
        Some(p) => {
            if !p.as_str().is_empty() {
                let mut out: TextMap<Json> = TextMap::new();
                let v = Json::Object(copy_map(row));
                proof {
                    lemma_values_by(out@, deep(), p@, v);
                    assert(entries(out@) =~= Seq::<(Seq<char>, JsonView)>::empty());
                }
                out.insert(p.clone(), v);
                return out;
            }
        },
        None => {},
    }
    copy_map(row)
}

// ---------------------------------------------------------------------------
// Laws
// ---------------------------------------------------------------------------

/// What a row holds stands under columns of the table.
pub open spec fn under_columns(row: Row, columns: Seq<Seq<char>>) -> bool {
    forall|i: int| 0 <= i < row.len() ==> columns.contains((#[trigger] row[i]).0)
}

/// Every row of the table stands under its columns.
pub open spec fn well_placed(t: ParseView) -> bool {
    forall|k: int| 0 <= k < t.rows.len() ==> under_columns(#[trigger] t.rows[k], t.columns)
}

/// Every row of a table stands under its columns, whatever the text is.
pub proof fn lemma_rows_under_columns(content: Seq<char>, delim: Delimiter, has_header: bool)
    ensures
        well_placed(dataset_table(content, delim, has_header)),
{
    if starts(trim_start(content), seq!['[']) {
        if let Ok(JsonView::Array(a)) = json_parsed(content) {
            lemma_json_table(a, a.len() as int);
        }
    } else {
        let sep = separator(content, delim);
        let d = data_lines(lines(content));
        if d.len() > 0 {
            let t = delimited_table(content, delim, has_header);
            let start = if has_header {
                1int
            } else {
                0int
            };
            lemma_table_rows(d, sep, t.columns, start, d.len() as int);
        }
    }
}

/// Every element of a JSON list is a row of the table or an error, and every
/// row stands under the columns.
pub proof fn lemma_json_table(a: Seq<JsonView>, n: int)
    requires
        0 <= n <= a.len(),
    ensures
        json_table(a, n).rows.len() + json_table(a, n).errors.len() == n,
        well_placed(json_table(a, n)),
    decreases n,
{
    if n > 0 {
        lemma_json_table(a, n - 1);
        let before = json_table(a, n - 1);
        let t = json_table(a, n);
        let row = match a[n - 1] {
            JsonView::Object(m) => m,
            _ => seq![("value"@, a[n - 1])],
        };
        lemma_add_columns(before.columns, row, row.len() as int);
        assert(add_columns(before.columns, seq![("value"@, a[n - 1])], 1) == add_column(
            add_columns(before.columns, seq![("value"@, a[n - 1])], 0),
            "value"@,
        ));
        assert forall|k: int| 0 <= k < t.rows.len() implies under_columns(
            #[trigger] t.rows[k],
            t.columns,
        ) by {
            if k < before.rows.len() {
                assert(t.rows[k] == before.rows[k]);
                assert(under_columns(before.rows[k], before.columns));
            }
        }
    }
}

proof fn lemma_add_columns(columns: Seq<Seq<char>>, row: Row, n: int)
    requires
        0 <= n <= row.len(),
    ensures
        forall|c: Seq<char>|
            columns.contains(c) ==> #[trigger] add_columns(columns, row, n).contains(c),
        forall|i: int|
            0 <= i < n ==> add_columns(columns, row, n).contains((#[trigger] row[i]).0),
    decreases n,
{
    if n > 0 {
        lemma_add_columns(columns, row, n - 1);
        let before = add_columns(columns, row, n - 1);
        let after = add_columns(columns, row, n);
        assert forall|c: Seq<char>| before.contains(c) implies #[trigger] after.contains(c) by {
            let k = choose|k: int| 0 <= k < before.len() && before[k] == c;
            assert(after[k] == c);
        }
        assert(after.contains(row[n - 1].0)) by {
            if !before.contains(row[n - 1].0) {
                assert(after[before.len() as int] == row[n - 1].0);
            }
        }
    }
}

proof fn lemma_table_rows(
    d: Seq<(int, Seq<char>)>,
    sep: char,
    columns: Seq<Seq<char>>,
    start: int,
    n: int,
)
    requires
        0 <= start,
        n <= d.len(),
    ensures
        forall|k: int|
            0 <= k < table_rows(d, sep, columns, start, n).0.len() ==> under_columns(
                #[trigger] table_rows(d, sep, columns, start, n).0[k],
                columns,
            ),
    decreases n,
{
    if n > start && n > 0 {
        lemma_table_rows(d, sep, columns, start, n - 1);
        let cells = row_cells(d[n - 1].1, sep);
        lemma_row_upto(columns, cells, columns.len() as int);
        let before = table_rows(d, sep, columns, start, n - 1).0;
        let after = table_rows(d, sep, columns, start, n).0;
        assert forall|k: int| 0 <= k < after.len() implies under_columns(
            #[trigger] after[k],
            columns,
        ) by {
            if k < before.len() {
                assert(after[k] == before[k]);
            }
        }
    }
}

proof fn lemma_row_upto(columns: Seq<Seq<char>>, cells: Seq<Seq<char>>, n: int)
    requires
        n <= columns.len(),
    ensures
        under_columns(row_upto(columns, cells, n), columns),
    decreases n,
{
    if n > 0 {
        lemma_row_upto(columns, cells, n - 1);
        if n - 1 < cells.len() {
            assert(columns.contains(columns[n - 1]));
            lemma_put_under(
                row_upto(columns, cells, n - 1),
                columns[n - 1],
                JsonView::Str(trim(cells[n - 1])),
                columns,
            );
        }
    }
}

proof fn lemma_put_under(row: Row, k: Seq<char>, v: JsonView, columns: Seq<Seq<char>>)
    requires
        under_columns(row, columns),
        columns.contains(k),
    ensures
        under_columns(put(row, k, v), columns),
    decreases row.len(),
{
    let p = put(row, k, v);
    if row.len() > 0 {
        let t = row.drop_first();
        assert forall|i: int| 0 <= i < t.len() implies columns.contains((#[trigger] t[i]).0) by {
            assert(t[i] == row[i + 1]);
        }
        lemma_put_under(t, k, v, columns);
        assert(columns.contains(row[0].0));
        assert forall|i: int| 0 <= i < p.len() implies columns.contains((#[trigger] p[i]).0) by {
            if row[0].0 == k {
                if i > 0 {
                    assert(p[i] == t[i - 1]);
                }
            } else if text_lt(k, row[0].0) {
                if i > 0 {
                    assert(p[i] == row[i - 1]);
                }
            } else if i > 0 {
                assert(p[i] == put(t, k, v)[i - 1]);
            }
        }
    }
}

} // verus!
