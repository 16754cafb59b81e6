//! Column type inference. Each cell of the sample row is classified by a
//! decimal-literal grammar: a cell that reads as a decimal number whose
//! digits after the dot (if any) are all zero counts as an integer, one
//! with a nonzero fractional digit counts as a float, and anything else is
//! plain text.

use vstd::prelude::*;

use crate::text::split_on;

verus! {

/// The type vector: the classification of each cell of the sample row,
/// one entry per column, in order.
pub open spec fn spec_type_vector(row: Seq<char>, sep: char) -> Seq<ColumnType> {
    split_on(row, sep).map_values(|c: Seq<char>| column_type_of(c))
}

/// The classification a column receives from the sample row.
#[derive(Clone, Copy, PartialEq, Eq, Structural, Debug)]
pub enum ColumnType {
    Integer,
    Float,
    Text,
}

/// An ASCII decimal digit.
pub open spec fn is_digit_char(c: char) -> bool {
    '0' <= c && c <= '9'
}

/// `s` with one leading sign character removed, if present.
pub open spec fn sign_stripped(s: Seq<char>) -> Seq<char> {
    if s.len() > 0 && (s[0] == '+' || s[0] == '-') {
        s.drop_first()
    } else {
        s
    }
}

/// An unsigned decimal literal: only digits and dots, at most one dot, and
/// at least one digit.
pub open spec fn unsigned_numeric(s: Seq<char>) -> bool {
    &&& forall|i: int| 0 <= i < s.len() ==> is_digit_char(s[i]) || s[i] == '.'
    &&& forall|i: int, j: int|
        0 <= i < s.len() && 0 <= j < s.len() && s[i] == '.' && s[j] == '.' ==> i == j
    &&& exists|i: int| 0 <= i < s.len() && is_digit_char(s[i])
}

/// A decimal literal with an optional leading sign. This is the grammar the
/// type inference accepts as numeric; anything else is classified as text.
pub open spec fn is_numeric(s: Seq<char>) -> bool {
    unsigned_numeric(sign_stripped(s))
}

/// Every digit that follows a dot is zero.
pub open spec fn fraction_all_zero(s: Seq<char>) -> bool {
    forall|i: int, j: int| 0 <= i < j < s.len() && s[i] == '.' ==> s[j] == '0'
}

/// An integer-valued decimal literal: numerically equal to its own rounding
/// because it has no dot, or only zeros after the dot.
pub open spec fn is_integral(s: Seq<char>) -> bool {
    is_numeric(s) && fraction_all_zero(sign_stripped(s))
}

/// The classification of one cell of the sample row.
pub open spec fn column_type_of(cell: Seq<char>) -> ColumnType {
    if !is_numeric(cell) {
        ColumnType::Text
    } else if is_integral(cell) {
        ColumnType::Integer
    } else {
        ColumnType::Float
    }
}

/// The SQL name of a column type, as it appears in the emitted script.
pub open spec fn sql_type_name(t: ColumnType) -> Seq<char> {
    match t {
        ColumnType::Integer => seq!['I', 'N', 'T'],
        ColumnType::Float => seq!['F', 'L', 'O', 'A', 'T'],
        ColumnType::Text => seq!['V', 'A', 'R', 'C', 'H', 'A', 'R', '(', '2', '0', ')'],
    }
}

/// Classifies one cell by the decimal-literal grammar.
pub fn classify_cell(cell: &str) -> (t: ColumnType)
    ensures
        t == column_type_of(cell@),
{
    let n = cell.unicode_len();
    let start: usize = if n > 0 {
        let c0 = cell.get_char(0);
        if c0 == '+' || c0 == '-' {
            1
        } else {
            0
        }
    } else {
        0
    };
    proof {
        if start == 1 {
            assert(cell@.subrange(1, n as int) =~= sign_stripped(cell@));
        } else {
            assert(cell@.subrange(0, n as int) =~= cell@);
        }
    }
    let ghost stripped = sign_stripped(cell@);
    let mut seen_digit = false;
    let mut seen_dot = false;
    let mut frac_nonzero = false;
    let mut i: usize = start;
    while i < n
        invariant
            n == cell@.len(),
            start <= i <= n,
            start <= 1,
            stripped == sign_stripped(cell@),
            stripped == cell@.subrange(start as int, n as int),
            forall|k: int|
                0 <= k < i - start ==> is_digit_char(stripped[k]) || stripped[k] == '.',
            seen_digit <==> exists|k: int| 0 <= k < i - start && is_digit_char(stripped[k]),
            seen_dot <==> exists|k: int| 0 <= k < i - start && stripped[k] == '.',
            forall|k: int, l: int|
                0 <= k < i - start && 0 <= l < i - start && stripped[k] == '.' && stripped[l]
                    == '.' ==> k == l,
            frac_nonzero <==> exists|k: int, l: int|
                0 <= k < l < i - start && stripped[k] == '.' && stripped[l] != '0',
        decreases n - i,
    {
        let c = cell.get_char(i);
        proof {
            assert(stripped[i - start] == cell@[i as int]);
        }
        if c == '.' {
            if seen_dot {
                assert(!unsigned_numeric(stripped));
                return ColumnType::Text;
            }
            seen_dot = true;
        } else if '0' <= c && c <= '9' {
            seen_digit = true;
            if seen_dot && c != '0' {
                frac_nonzero = true;
            }
        } else {
            assert(!(is_digit_char(stripped[i - start]) || stripped[i - start] == '.'));
            assert(!unsigned_numeric(stripped));
            return ColumnType::Text;
        }
        i = i + 1;
    }
    proof {
        assert(i - start == stripped.len());
    }
    if !seen_digit {
        assert(!unsigned_numeric(stripped));
        return ColumnType::Text;
    }
    assert(unsigned_numeric(stripped));
    if frac_nonzero {
        assert(!fraction_all_zero(stripped));
        ColumnType::Float
    } else {
        assert(fraction_all_zero(stripped));
        ColumnType::Integer
    }
}

/// The SQL name of `t` as an owned string.
pub fn sql_type_name_string(t: ColumnType) -> (r: String)
    ensures
        r@ == sql_type_name(t),
{
    match t {
        ColumnType::Integer => {
            let s = String::from_str("INT");
            proof {
                reveal_strlit("INT");
            }
            assert(s@ =~= sql_type_name(ColumnType::Integer));
            s
        },
        ColumnType::Float => {
            let s = String::from_str("FLOAT");
            proof {
                reveal_strlit("FLOAT");
            }
            assert(s@ =~= sql_type_name(ColumnType::Float));
            s
        },
        ColumnType::Text => {
            let s = String::from_str("VARCHAR(20)");
            proof {
                reveal_strlit("VARCHAR(20)");
            }
            assert(s@ =~= sql_type_name(ColumnType::Text));
            s
        },
    }
}

} // verus!
