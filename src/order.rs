use vstd::prelude::*;

verus! {

/// A digit of the base-62 alphabet of ordering keys.
pub open spec fn base62_digit(c: char) -> bool {
    ('0' <= c && c <= '9') || ('A' <= c && c <= 'Z') || ('a' <= c && c <= 'z')
}

/// A non-empty string of base-62 digits.
pub open spec fn key_shaped(s: Seq<char>) -> bool {
    s.len() > 0 && forall|i: int| 0 <= i < s.len() ==> base62_digit(#[trigger] s[i])
}

/// Strict lexicographic order of strings.
pub open spec fn key_lt(a: Seq<char>, b: Seq<char>) -> bool {
    ||| (a.len() < b.len() && a == b.subrange(0, a.len() as int))
    ||| exists|i: int|
        0 <= i < a.len() && i < b.len() && a.subrange(0, i) == b.subrange(0, i) && (a[i] as u32)
            < (#[trigger] b[i] as u32)
}

/// The length of a key's integer part, fixed by its first character: two for
/// 'a', one more for each letter after it; two for 'Z', one more for each
/// letter before it.
pub open spec fn int_part_len(head: char) -> int {
    if 'a' <= head && head <= 'z' {
        head as int - 'a' as int + 2
    } else {
        'Z' as int - head as int + 2
    }
}

/// A key that the fractional-index crate accepts: base-62 digits, a letter
/// first, an integer part of the length that letter fixes, a fractional part
/// that does not end in '0', and not the smallest integer ("A" then 26 zeros).
pub open spec fn valid_order_key(s: Seq<char>) -> bool {
    &&& key_shaped(s)
    &&& (('a' <= s[0] && s[0] <= 'z') || ('A' <= s[0] && s[0] <= 'Z'))
    &&& int_part_len(s[0]) <= s.len()
    &&& (s.len() == int_part_len(s[0]) || s.last() != '0')
    &&& !(s.len() == 27 && s[0] == 'A' && forall|i: int| 1 <= i < 27 ==> #[trigger] s[i] == '0')
}

/// The key that the fractional-index crate places right after a key, with no
/// upper bound.
pub uninterp spec fn key_after(lo: Seq<char>) -> Seq<char>;

/// Relies on `lexicon_fractional_index::key_between`: on success the key sorts
/// strictly between the bounds, an absent bound being open. With no bounds it
/// returns "a0"; with a valid lower bound and no upper one it succeeds with a
/// valid key (by incrementing the integer part, or where that overflows, by
/// extending the fractional part with a digit other than '0'). It panics on an
/// empty key and on a digit outside base 62, which `requires` leaves out.
#[verifier::external_body]
fn key_between(lo: &Option<String>, hi: &Option<String>) -> (r: Result<String, String>)
    requires
        lo is Some ==> key_shaped(lo->Some_0@),
        hi is Some ==> key_shaped(hi->Some_0@),
    ensures
        r is Ok && lo is Some ==> key_lt(lo->Some_0@, r->Ok_0@),
        r is Ok && hi is Some ==> key_lt(r->Ok_0@, hi->Some_0@),
        lo is None && hi is None ==> r is Ok && r->Ok_0@ == seq!['a', '0'],
        lo is Some && valid_order_key(lo->Some_0@) && hi is None ==> r is Ok && valid_order_key(
            r->Ok_0@,
        ),
        r is Ok && lo is Some && hi is None ==> r->Ok_0@ == key_after(lo->Some_0@),
{
    lexicon_fractional_index::key_between(lo, hi)
}

/// Ordering keys for `n` new sheets, in order: the first asked for with no
/// neighbour ("a0"), each next one with the previous key as its only, left,
/// neighbour. Each key sorts strictly before the next.
pub fn order_keys(n: usize) -> (r: Vec<String>)
    ensures
        r@.len() == n,
        n > 0 ==> r@[0]@ == seq!['a', '0'],
        forall|i: int| 0 <= i < n ==> valid_order_key(#[trigger] r@[i]@),
        forall|i: int| 0 <= i < n - 1 ==> key_lt(#[trigger] r@[i]@, r@[i + 1]@),
        forall|i: int| 0 <= i < n - 1 ==> r@[i + 1]@ == key_after(#[trigger] r@[i]@),
{
    let mut keys: Vec<String> = Vec::new();
    if n == 0 {
        return keys;
    }
    let mut order = match key_between(&None, &None) {
        Ok(k) => k,
        Err(e) => e,
    };
    assert(valid_order_key(order@)) by {
        assert(order@ == seq!['a', '0']);
        assert(base62_digit(order@[0]) && base62_digit(order@[1]));
    }
    let ghost first = order@;
    let mut i: usize = 0;
    while i < n
        invariant
            i <= n,
            keys@.len() == i,
            valid_order_key(order@),
            i == 0 ==> order@ == first,
            first == seq!['a', '0'],
            i > 0 ==> keys@[0]@ == first,
            forall|j: int| 0 <= j < i ==> valid_order_key(#[trigger] keys@[j]@),
            forall|j: int| 0 <= j < i - 1 ==> key_lt(#[trigger] keys@[j]@, keys@[j + 1]@),
            0 < i < n ==> key_lt(keys@[i - 1]@, order@),
            0 < i < n ==> order@ == key_after(keys@[i - 1]@),
            forall|j: int| 0 <= j < i - 1 ==> keys@[j + 1]@ == key_after(#[trigger] keys@[j]@),
        decreases n - i,
    {
        let current = order.clone();
        keys.push(current);
        i = i + 1;
        if i < n {
            let prev = Some(order);
            order = match key_between(&prev, &None) {
                Ok(k) => k,
                Err(e) => e,
            };
        }
    }
    keys
}

} // verus!
