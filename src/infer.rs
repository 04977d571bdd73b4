use vstd::prelude::*;
use crate::value::{CellModel, CellValue};

verus! {

pub open spec fn is_digit(c: char) -> bool {
    '0' <= c && c <= '9'
}

/// Where the digits of a numeral start: after a leading minus sign, if any.
pub open spec fn numeral_start(s: Seq<char>) -> int {
    if s.len() > 0 && s[0] == '-' {
        1
    } else {
        0
    }
}

/// A decimal numeral: an optional minus sign, then digits with at most one
/// decimal point, beginning and ending with a digit.
pub open spec fn is_numeral(s: Seq<char>) -> bool {
    let a = numeral_start(s);
    &&& a < s.len()
    &&& is_digit(s[a])
    &&& is_digit(s[s.len() - 1])
    &&& forall|i: int| a <= i < s.len() ==> is_digit(#[trigger] s[i]) || s[i] == '.'
    &&& forall|i: int, j: int| a <= i < j < s.len() && #[trigger] s[i] == '.' ==> #[trigger] s[j] != '.'
}

/// The value a field of text holds: blank when empty, a number when it is a
/// decimal numeral, text otherwise.
pub open spec fn inferred(s: Seq<char>) -> CellModel {
    if s.len() == 0 {
        CellModel::Blank
    } else if is_numeral(s) {
        CellModel::Number(s)
    } else {
        CellModel::Text(s)
    }
}

/// Whether the text is a decimal numeral.
pub fn numeral(s: &str) -> (r: bool)
    ensures
        r == is_numeral(s@),
{
    let n = s.unicode_len();
    if n == 0 {
        return false;
    }
    let a: usize = if s.get_char(0) == '-' { 1 } else { 0 };
    if a >= n {
        return false;
    }
    if !('0' <= s.get_char(a) && s.get_char(a) <= '9') {
        return false;
    }
    if !('0' <= s.get_char(n - 1) && s.get_char(n - 1) <= '9') {
        return false;
    }
    let mut seen_dot = false;
    let mut i: usize = a;
    while i < n
        invariant
            n == s@.len(),
            a == numeral_start(s@),
            a <= i <= n,
            seen_dot == exists|j: int| a <= j < i && s@[j] == '.',
            forall|j: int| a <= j < i ==> is_digit(#[trigger] s@[j]) || s@[j] == '.',
            forall|j: int, k: int| a <= j < k < i && #[trigger] s@[j] == '.' ==> #[trigger] s@[k]
                != '.',
        decreases n - i,
    {
        let c = s.get_char(i);
        if c == '.' {
            if seen_dot {
                let ghost j = choose|j: int| a <= j < i && s@[j] == '.';
                assert(s@[j] == '.' && s@[i as int] == '.');
                return false;
            }
            seen_dot = true;
        } else if !('0' <= c && c <= '9') {
            return false;
        }
        i = i + 1;
    }
    true
}

/// The value that a field of text is read as.
pub fn infer_value(s: &String) -> (r: CellValue)
    ensures
        r@ == inferred(s@),
{
    let t = s.as_str();
    if t.unicode_len() == 0 {
        CellValue::Blank
    } else if numeral(t) {
        CellValue::Number(s.clone())
    } else {
        CellValue::Text(s.clone())
    }
}

} // verus!
