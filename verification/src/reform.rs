//! Reformatting of the header and of the data rows into SQL-ready
//! fragments: header cells become backtick-quoted identifiers, text cells
//! become single-quoted literals, numeric cells stay bare, and cells are
//! joined with commas.

use vstd::prelude::*;

use crate::column::ColumnType;
use crate::text::join_with;
use crate::text::lemma_join_with_push;
use crate::text::lemma_split_on_len;
use crate::text::push_char;
use crate::text::split_cells;
use crate::text::split_on;

verus! {

/// The header cells wrapped in backticks and joined with commas: one
/// quoted identifier per original column.
pub open spec fn quote_join(cells: Seq<Seq<char>>) -> Seq<char> {
    seq!['`'] + join_with(cells, seq!['`', ',', '`']) + seq!['`']
}

/// The reformed header line: every delimiter occurrence becomes a
/// backtick-comma-backtick, and the whole line is wrapped in backticks.
pub open spec fn reformed_header(h: Seq<char>, sep: char) -> Seq<char> {
    quote_join(split_on(h, sep))
}

/// One body cell rendered as a SQL literal: single-quoted when its column
/// was classified as text, bare otherwise.
pub open spec fn reformed_cell(cell: Seq<char>, t: ColumnType) -> Seq<char> {
    if t is Text {
        seq!['\''] + cell + seq!['\'']
    } else {
        cell
    }
}

/// How many cells of a row take part in the reform: the zip of the row's
/// cells with the type vector stops at the shorter of the two.
pub open spec fn zip_len(cells: Seq<Seq<char>>, types: Seq<ColumnType>) -> nat {
    if cells.len() <= types.len() {
        cells.len()
    } else {
        types.len()
    }
}

/// The rendered cells of one body row, in order.
pub open spec fn reformed_cells(row: Seq<char>, types: Seq<ColumnType>, sep: char) -> Seq<
    Seq<char>,
> {
    let cells = split_on(row, sep);
    Seq::new(zip_len(cells, types), |i: int| reformed_cell(cells[i], types[i]))
}

/// The reformed body row: its rendered cells joined with commas. On a
/// ragged row the zip stops at the shorter side; file-level reforming
/// rejects such rows before this can matter.
pub open spec fn reformed_row(row: Seq<char>, types: Seq<ColumnType>, sep: char) -> Seq<char> {
    join_with(reformed_cells(row, types, sep), seq![','])
}

/// Reforms one header line.
pub fn reform_header_line(h: &str, sep: char) -> (r: String)
    ensures
        r@ == reformed_header(h@, sep),
{
    let cells = split_cells(h, sep);
    let ghost spec_cells = split_on(h@, sep);
    let mut out = String::new();
    push_char(&mut out, '`');
    let mut j: usize = 0;
    proof {
        reveal_strlit("`,`");
        assert("`,`"@ =~= seq!['`', ',', '`']);
        assert(spec_cells.subrange(0, 0) =~= Seq::<Seq<char>>::empty());
    }
    while j < cells.len()
        invariant
            cells@.len() == spec_cells.len(),
            forall|k: int| 0 <= k < cells@.len() ==> cells@[k]@ == spec_cells[k],
            j <= cells.len(),
            out@ == seq!['`'] + join_with(spec_cells.subrange(0, j as int), seq!['`', ',', '`']),
        decreases cells.len() - j,
    {
        proof {
            lemma_join_with_push(
                spec_cells.subrange(0, j as int),
                seq!['`', ',', '`'],
                spec_cells[j as int],
            );
            assert(spec_cells.subrange(0, j + 1 as int) =~= spec_cells.subrange(
                0,
                j as int,
            ).push(spec_cells[j as int]));
        }
        if j > 0 {
            out.append("`,`");
            proof {
                reveal_strlit("`,`");
                assert("`,`"@ =~= seq!['`', ',', '`']);
            }
        }
        out.append(cells[j].as_str());
        j = j + 1;
    }
    proof {
        assert(spec_cells.subrange(0, spec_cells.len() as int) =~= spec_cells);
    }
    push_char(&mut out, '`');
    proof {
        assert(out@ =~= reformed_header(h@, sep));
    }
    out
}

/// Reforms one body row against the type vector.
pub fn reform_row(row: &str, types: &Vec<ColumnType>, sep: char) -> (r: String)
    ensures
        r@ == reformed_row(row@, types@, sep),
{
    let cells = split_cells(row, sep);
    let n = if cells.len() <= types.len() {
        cells.len()
    } else {
        types.len()
    };
    let ghost rcells = reformed_cells(row@, types@, sep);
    let mut out = String::new();
    let mut j: usize = 0;
    proof {
        assert(rcells.subrange(0, 0) =~= Seq::<Seq<char>>::empty());
    }
    while j < n
        invariant
            n == zip_len(split_on(row@, sep), types@),
            n <= cells.len(),
            n <= types.len(),
            cells@.len() == split_on(row@, sep).len(),
            forall|k: int| 0 <= k < cells@.len() ==> cells@[k]@ == split_on(row@, sep)[k],
            rcells == reformed_cells(row@, types@, sep),
            j <= n,
            out@ == join_with(rcells.subrange(0, j as int), seq![',']),
        decreases n - j,
    {
        proof {
            lemma_join_with_push(rcells.subrange(0, j as int), seq![','], rcells[j as int]);
            assert(rcells.subrange(0, j + 1 as int) =~= rcells.subrange(0, j as int).push(
                rcells[j as int],
            ));
        }
        if j > 0 {
            push_char(&mut out, ',');
        }
        match types[j] {
            ColumnType::Text => {
                push_char(&mut out, '\'');
                out.append(cells[j].as_str());
                push_char(&mut out, '\'');
            },
            ColumnType::Integer => {
                out.append(cells[j].as_str());
            },
            ColumnType::Float => {
                out.append(cells[j].as_str());
            },
        }
        j = j + 1;
    }
    proof {
        assert(rcells.subrange(0, n as int) =~= rcells);
    }
    out
}

/// Law: the reformed header depends on the delimiter only through the cell
/// boundaries it induces. Two header lines that split into the same cells,
/// each under its own delimiter, reform to the same output.
pub proof fn lemma_reform_header_delimiter_independent(
    h1: Seq<char>,
    sep1: char,
    h2: Seq<char>,
    sep2: char,
)
    requires
        split_on(h1, sep1) == split_on(h2, sep2),
    ensures
        reformed_header(h1, sep1) == reformed_header(h2, sep2),
{
}

/// Law: in a well-formed row (as many cells as the type vector has
/// columns) whose columns are all text, every cell is rendered in single
/// quotes.
pub proof fn lemma_reform_row_all_text(row: Seq<char>, types: Seq<ColumnType>, sep: char)
    requires
        types.len() == split_on(row, sep).len(),
        forall|i: int| 0 <= i < types.len() ==> types[i] is Text,
    ensures
        reformed_row(row, types, sep) == join_with(
            split_on(row, sep).map_values(|c: Seq<char>| seq!['\''] + c + seq!['\'']),
            seq![','],
        ),
{
    assert(reformed_cells(row, types, sep) =~~= split_on(row, sep).map_values(
        |c: Seq<char>| seq!['\''] + c + seq!['\''],
    ));
}

/// Law: in a well-formed row whose columns are all numeric (integer or
/// float), every cell is rendered bare, so the row is only rejoined with
/// commas.
pub proof fn lemma_reform_row_all_numeric(row: Seq<char>, types: Seq<ColumnType>, sep: char)
    requires
        types.len() == split_on(row, sep).len(),
        forall|i: int| 0 <= i < types.len() ==> types[i] is Integer || types[i] is Float,
    ensures
        reformed_row(row, types, sep) == join_with(split_on(row, sep), seq![',']),
{
    assert(reformed_cells(row, types, sep) =~~= split_on(row, sep));
}

/// `h` with every occurrence of `sep` replaced by backtick-comma-backtick
/// and every other character kept.
pub open spec fn delimiters_replaced(h: Seq<char>, sep: char) -> Seq<char>
    decreases h.len(),
{
    if h.len() == 0 {
        Seq::empty()
    } else {
        (if h[0] == sep {
            seq!['`', ',', '`']
        } else {
            seq![h[0]]
        }) + delimiters_replaced(h.drop_first(), sep)
    }
}

proof fn lemma_join_split_is_replacement(h: Seq<char>, sep: char)
    ensures
        join_with(split_on(h, sep), seq!['`', ',', '`']) == delimiters_replaced(h, sep),
    decreases h.len(),
{
    lemma_split_on_len(h, sep);
    if h.len() > 0 {
        let t = h.drop_first();
        lemma_split_on_len(t, sep);
        lemma_join_split_is_replacement(t, sep);
        let r = split_on(t, sep);
        let q = seq!['`', ',', '`'];
        if h[0] == sep {
            assert(split_on(h, sep).drop_first() =~= r);
            assert(join_with(split_on(h, sep), q) == split_on(h, sep)[0] + q + join_with(r, q));
            assert(split_on(h, sep)[0] + q + join_with(r, q) =~= q + delimiters_replaced(t, sep));
        } else {
            assert(split_on(h, sep)[0] == seq![h[0]] + r[0]);
            if r.len() == 1 {
                assert(join_with(split_on(h, sep), q) == split_on(h, sep)[0]);
                assert(join_with(r, q) == r[0]);
                assert(seq![h[0]] + r[0] =~= seq![h[0]] + delimiters_replaced(t, sep));
            } else {
                assert(split_on(h, sep).drop_first() =~= r.drop_first());
                assert(join_with(split_on(h, sep), q) == split_on(h, sep)[0] + q + join_with(
                    r.drop_first(),
                    q,
                ));
                assert(join_with(r, q) == r[0] + q + join_with(r.drop_first(), q));
                assert((seq![h[0]] + r[0]) + q + join_with(r.drop_first(), q) =~= seq![h[0]] + (
                r[0] + q + join_with(r.drop_first(), q)));
            }
        }
    }
}

/// Law: the reformed header is exactly the original header with every
/// delimiter occurrence replaced by backtick-comma-backtick, wrapped in a
/// leading and a trailing backtick.
pub proof fn lemma_reform_header_is_replacement(h: Seq<char>, sep: char)
    ensures
        reformed_header(h, sep) == seq!['`'] + delimiters_replaced(h, sep) + seq!['`'],
{
    lemma_join_split_is_replacement(h, sep);
}

/// The reformed header is always at least two characters longer than the
/// header it came from, because of the wrapping backticks.
pub proof fn lemma_reformed_header_grows(h: Seq<char>, sep: char)
    ensures
        reformed_header(h, sep).len() >= h.len() + 2,
{
    crate::text::lemma_join_split_len(h, sep, seq!['`', ',', '`']);
}

/// Law: header reforming is not idempotent. Reforming an already-reformed
/// header wraps it in quote characters a second time, so a second pass
/// never returns its input unchanged.
pub proof fn lemma_reform_header_not_idempotent(h: Seq<char>, sep1: char, sep2: char)
    ensures
        reformed_header(reformed_header(h, sep1), sep2) != reformed_header(h, sep1),
{
    lemma_reformed_header_grows(reformed_header(h, sep1), sep2);
}

/// Law: reforming a row is a function of the row's text alone, so equal
/// data rows always yield equal reformed rows.
pub proof fn lemma_equal_rows_reform_equal(
    row1: Seq<char>,
    row2: Seq<char>,
    types: Seq<ColumnType>,
    sep: char,
)
    requires
        row1 == row2,
    ensures
        reformed_row(row1, types, sep) == reformed_row(row2, types, sep),
{
}

} // verus!
