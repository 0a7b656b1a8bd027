//! What a table that was read holds: which line becomes which row, and which cell
//! stands under which column.
use vstd::prelude::*;

use crate::dataset::{
    count_upto, data_lines, dataset_table, delimited_table, header_names, json_outcome, json_table,
    row_cells, row_upto, seed, separator, table_rows, told_apart, Delimiter, Row,
};
use crate::json::json_parsed;
use crate::map::{lemma_lookup_put, lookup};
use crate::text::{
    dec, ends, lemma_split_halves, lemma_split_single, lines, split, starts, trim, trim_start,
};
use crate::value::JsonView;

verus! {

/// A cell stands under the column of its place, without the white space about it,
/// and where a line has no cell for a column, nothing stands under it.
pub proof fn lemma_cells_under_columns(
    columns: Seq<Seq<char>>,
    cells: Seq<Seq<char>>,
    n: int,
    i: int,
)
    requires
        columns.no_duplicates(),
        0 <= n <= columns.len(),
        0 <= i < columns.len(),
    ensures
        lookup(row_upto(columns, cells, n), columns[i]) == if i < n && i < cells.len() {
            Some(JsonView::Str(trim(cells[i])))
        } else {
            None
        },
    decreases n,
{
    if n > 0 {
        lemma_cells_under_columns(columns, cells, n - 1, i);
        if n - 1 < cells.len() {
            lemma_lookup_put(
                row_upto(columns, cells, n - 1),
                columns[n - 1],
                JsonView::Str(trim(cells[n - 1])),
                columns[i],
            );
        }
    }
}

proof fn lemma_table_rows(
    d: Seq<(int, Seq<char>)>,
    sep: char,
    columns: Seq<Seq<char>>,
    start: int,
    n: int,
)
    requires
        0 <= start <= n <= d.len(),
    ensures
        table_rows(d, sep, columns, start, n).0.len() == n - start,
        forall|k: int|
            0 <= k < n - start ==> #[trigger] table_rows(d, sep, columns, start, n).0[k]
                == row_upto(columns, row_cells(d[start + k].1, sep), columns.len() as int),
        forall|k: int|
            start <= k < n && row_cells(#[trigger] d[k].1, sep).len() > columns.len() ==> exists|
                j: int,
            |
                0 <= j < table_rows(d, sep, columns, start, n).1.len() && (#[trigger] table_rows(
                    d,
                    sep,
                    columns,
                    start,
                    n,
                ).1[j]).line == d[k].0,
        (forall|k: int|
            start <= k < n ==> row_cells(#[trigger] d[k].1, sep).len() <= columns.len())
            ==> table_rows(d, sep, columns, start, n).1.len() == 0,
    decreases n,
{
    if n > start {
        lemma_table_rows(d, sep, columns, start, n - 1);
        let before = table_rows(d, sep, columns, start, n - 1);
        let now = table_rows(d, sep, columns, start, n);
        assert(row_cells(d[n - 1].1, sep).len() <= columns.len() ==> now.1 == before.1);
        assert forall|k: int|
            start <= k < n && row_cells(#[trigger] d[k].1, sep).len() > columns.len() implies exists|
            j: int,
        |
            0 <= j < now.1.len() && (#[trigger] now.1[j]).line == d[k].0 by {
            if k < n - 1 {
                let j = choose|j: int|
                    0 <= j < before.1.len() && (#[trigger] before.1[j]).line == d[k].0;
                assert(now.1[j].line == d[k].0);
            } else {
                assert(now.1[before.1.len() as int].line == d[k].0);
            }
        }
    }
}

/// Every line with something in it is a row, in its order, but for the header: the
/// cell at a place of the line stands under the column of that place. A line with
/// more cells than there are columns is told of by its number, and with none such
/// nothing is wrong.
pub proof fn lemma_delimited_rows(
    content: Seq<char>,
    delim: Delimiter,
    has_header: bool,
    k: int,
    i: int,
)
    requires
        ({
            let t = delimited_table(content, delim, has_header);
            &&& t.columns.no_duplicates()
            &&& 0 <= i < t.columns.len()
            &&& 0 <= k < data_lines(lines(content)).len() - if has_header {
                1int
            } else {
                0
            }
        }),
    ensures
        ({
            let t = delimited_table(content, delim, has_header);
            let d = data_lines(lines(content));
            let skip = if has_header {
                1int
            } else {
                0
            };
            let cells = row_cells(d[skip + k].1, separator(content, delim));
            &&& t.rows.len() == d.len() - skip
            &&& i < cells.len() ==> lookup(t.rows[k], t.columns[i]) == Some(
                JsonView::Str(trim(cells[i])),
            )
            &&& i >= cells.len() ==> lookup(t.rows[k], t.columns[i]) is None
            &&& cells.len() > t.columns.len() ==> exists|j: int|
                0 <= j < t.errors.len() && (#[trigger] t.errors[j]).line == d[skip + k].0
        }),
{
    let t = delimited_table(content, delim, has_header);
    let d = data_lines(lines(content));
    let sep = separator(content, delim);
    let skip = if has_header {
        1int
    } else {
        0
    };
    lemma_table_rows(d, sep, t.columns, skip, d.len() as int);
    let cells = row_cells(d[skip + k].1, sep);
    let (rows, errors) = table_rows(d, sep, t.columns, skip, d.len() as int);
    assert(t.rows == rows && t.errors == errors);
    assert(rows[k] == row_upto(t.columns, cells, t.columns.len() as int));
    if cells.len() > t.columns.len() {
        let j = choose|j: int|
            0 <= j < errors.len() && (#[trigger] errors[j]).line == d[skip + k].0;
        assert(t.errors[j].line == d[skip + k].0);
    }
    lemma_cells_under_columns(t.columns, cells, t.columns.len() as int, i);
}

/// With a header, the columns are named by the cells of the first line, and by their
/// place where a cell is empty; without one, by their place, and a single column is
/// named `value`.
pub proof fn lemma_column_names(content: Seq<char>, delim: Delimiter, has_header: bool, i: int)
    requires
        data_lines(lines(content)).len() > 0,
    ensures
        ({
            let t = delimited_table(content, delim, has_header);
            let first = row_cells(data_lines(lines(content))[0].1, separator(content, delim));
            &&& t.columns.len() == first.len()
            &&& 0 <= i < first.len() && has_header && header_names(first).no_duplicates() ==> t.columns[i]
                == if trim(first[i]).len() > 0 {
                trim(first[i])
            } else {
                "col"@ + dec((i + 1) as nat)
            }
            &&& 0 <= i < first.len() && !has_header && first.len() > 1 ==> t.columns[i] == "col"@
                + dec((i + 1) as nat)
            &&& !has_header && first.len() == 1 ==> t.columns[0] == "value"@
        }),
{
    let first = row_cells(data_lines(lines(content))[0].1, separator(content, delim));
    if header_names(first).no_duplicates() {
        crate::dataset::lemma_told_apart_distinct(header_names(first));
    }
}

/// Of names that are equal, the first stays as it is, and each other gets its place
/// among them behind it.
pub proof fn lemma_told_apart(s: Seq<Seq<char>>, i: int)
    requires
        0 <= i < s.len(),
    ensures
        told_apart(s).len() == s.len(),
        starts(told_apart(s)[i], s[i]),
        (forall|j: int| 0 <= j < i ==> #[trigger] s[j] != s[i]) ==> told_apart(s)[i] == s[i],
        (exists|j: int| 0 <= j < i && #[trigger] s[j] == s[i]) ==> told_apart(s)[i] != s[i] && ends(
            told_apart(s)[i],
            dec(count_upto(s, s[i], i + 1)),
        ),
{
    lemma_count_zero(s, s[i], i);
    let n = count_upto(s, s[i], i);
    let d = dec((n + 1) as nat);
    reveal_strlit("_");
    let t = told_apart(s)[i];
    assert(t.subrange(0, s[i].len() as int) =~= s[i]);
    if n > 0 {
        assert(t == s[i] + "_"@ + d);
        assert(t.len() > s[i].len());
        assert(t.subrange(t.len() - d.len(), t.len() as int) =~= d);
    }
}

proof fn lemma_count_zero(s: Seq<Seq<char>>, x: Seq<char>, n: int)
    requires
        0 <= n <= s.len(),
    ensures
        count_upto(s, x, n) == 0 <==> forall|j: int| 0 <= j < n ==> #[trigger] s[j] != x,
    decreases n,
{
    if n > 0 {
        lemma_count_zero(s, x, n - 1);
        if forall|j: int| 0 <= j < n ==> #[trigger] s[j] != x {
            assert(s[n - 1] != x);
        }
    }
}

/// The lines that count are those with more than white space in them, in their
/// order, each with its number among all the lines.
pub proof fn lemma_data_lines(l: Seq<Seq<char>>, line: Seq<char>)
    ensures
        data_lines(Seq::empty()).len() == 0,
        trim(line).len() == 0 ==> data_lines(l.push(line)) == data_lines(l),
        trim(line).len() > 0 ==> data_lines(l.push(line)) == data_lines(l).push(
            (l.len() as int + 1, line),
        ),
{
    assert(l.push(line).drop_last() =~= l);
}

/// The separator is the one that was asked for. Where it is to be found out, it is a
/// tab where the first line that counts has one in it, a comma where it has only
/// that, and else a tab.
pub proof fn lemma_separator(content: Seq<char>)
    requires
        data_lines(lines(content)).len() > 0,
    ensures
        separator(content, Delimiter::Tab) == '\t',
        separator(content, Delimiter::Comma) == ',',
        trim(data_lines(lines(content))[0].1).contains('\t') ==> separator(content, Delimiter::Auto)
            == '\t',
        !trim(data_lines(lines(content))[0].1).contains('\t') && trim(
            data_lines(lines(content))[0].1,
        ).contains(',') ==> separator(content, Delimiter::Auto) == ',',
        !trim(data_lines(lines(content))[0].1).contains(',') ==> separator(content, Delimiter::Auto)
            == '\t',
{
}

/// A line ends at a line feed, and a return before it does not belong to it.
pub proof fn lemma_lines(a: Seq<char>, b: Seq<char>)
    requires
        !a.contains('\n'),
        !b.contains('\n'),
        b.len() > 0,
        a.len() > 0 ==> a.last() != '\r',
    ensures
        lines(a + seq!['\n'] + b) == seq![a, b],
        lines(a + seq!['\r', '\n'] + b) == seq![a, b],
        lines(b + seq!['\n']) == if b.last() == '\r' {
            seq![b.drop_last()]
        } else {
            seq![b]
        },
        lines(b) == seq![b],
{
    lemma_split_halves(a, '\n', b);
    lemma_split_single(a, '\n');
    lemma_split_single(b, '\n');
    assert(lines(a + seq!['\n'] + b) =~= seq![a, b]);
    let r = a.push('\r');
    assert(!r.contains('\n')) by {
        if r.contains('\n') {
            let i = choose|i: int| 0 <= i < r.len() && r[i] == '\n';
            assert(a[i] == '\n');
        }
    }
    lemma_split_single(r, '\n');
    lemma_split_halves(r, '\n', b);
    assert(a + seq!['\r', '\n'] + b =~= r + seq!['\n'] + b);
    assert(r.drop_last() =~= a);
    assert(lines(a + seq!['\r', '\n'] + b) =~= seq![a, b]);
    let none = Seq::<char>::empty();
    lemma_split_single(none, '\n');
    lemma_split_halves(b, '\n', none);
    assert(b + seq!['\n'] + none =~= b + seq!['\n']);
    let p = split(b + seq!['\n'], seq!['\n']);
    assert(p =~= seq![b, none]);
    assert(lines(b + seq!['\n']) =~= if b.last() == '\r' {
        seq![b.drop_last()]
    } else {
        seq![b]
    });
    assert(lines(b) =~= seq![b]);
}

/// A text that begins with a bracket is read as JSON, and any other line by line.
pub proof fn lemma_kind_of_table(content: Seq<char>, delim: Delimiter, has_header: bool)
    ensures
        trim_start(content).len() > 0 && trim_start(content)[0] == '[' ==> dataset_table(
            content,
            delim,
            has_header,
        ) == json_outcome(json_parsed(content)),
        trim_start(content).len() == 0 || trim_start(content)[0] != '[' ==> dataset_table(
            content,
            delim,
            has_header,
        ) == delimited_table(content, delim, has_header),
{
    let t = trim_start(content);
    if t.len() > 0 {
        assert(t.subrange(0, 1)[0] == t[0]);
        assert(t[0] == '[' ==> t.subrange(0, 1) =~= seq!['[']);
    }
}

/// Each object in a JSON list is a row as it stands, each single value a row with
/// that value under `value`, and anything else is told of by its place and is no
/// row. What is no list is no table.
pub proof fn lemma_json_rows(a: Seq<JsonView>, v: JsonView, parsed: Result<JsonView, Seq<char>>)
    ensures
        ({
            let before = json_table(a, a.len() as int);
            let t = json_table(a.push(v), a.len() as int + 1);
            &&& v is Object ==> t.rows == before.rows.push(v->Object_0) && t.errors
                == before.errors
            &&& v is Str || v is Number || v is Bool ==> t.rows == before.rows.push(
                seq![("value"@, v)],
            ) && t.errors == before.errors
            &&& v is Null || v is Array ==> t.rows == before.rows && t.errors.len()
                == before.errors.len() + 1 && t.errors.last().line == a.len() + 1
        }),
        json_table(a, 0).rows.len() == 0,
        json_outcome(Ok(JsonView::Array(a))) == json_table(a, a.len() as int),
        parsed is Err || !(parsed->Ok_0 is Array) ==> json_outcome(parsed).rows.len() == 0
            && json_outcome(parsed).errors.len() == 1,
{
    lemma_json_front(a, v, a.len() as int);
    assert(a.push(v)[a.len() as int] == v);
}

proof fn lemma_json_front(a: Seq<JsonView>, v: JsonView, n: int)
    requires
        n <= a.len(),
    ensures
        json_table(a.push(v), n) == json_table(a, n),
    decreases n,
{
    if n > 0 {
        lemma_json_front(a, v, n - 1);
        assert(a.push(v)[n - 1] == a[n - 1]);
    }
}

/// A row seeds a variable for each of its cells; with a prefix, one variable of that
/// name that holds the whole row.
pub proof fn lemma_seed(prefix: Seq<char>, row: Row)
    ensures
        seed(None, row) == row,
        prefix.len() == 0 ==> seed(Some(prefix), row) == row,
        prefix.len() > 0 ==> seed(Some(prefix), row).len() == 1 && lookup(
            seed(Some(prefix), row),
            prefix,
        ) == Some(JsonView::Object(row)),
{
}

} // verus!
