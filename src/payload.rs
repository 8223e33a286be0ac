use vstd::prelude::*;
use vstd::string::*;

use crate::bytes::copy_range;

verus! {

/// The field separator of event payloads, `:`.
pub const SEPARATOR: u8 = 0x3A;

/// Index of the first `sep` at or after `i`, or the length of `b` if none.
pub open spec fn next_separator<A>(b: Seq<A>, sep: A, i: int) -> int
    decreases b.len() - i,
{
    if i < 0 || i >= b.len() {
        b.len() as int
    } else if b[i] == sep {
        i
    } else {
        next_separator(b, sep, i + 1)
    }
}

/// The `k`-th `sep`-delimited field of `b` counted from index `start`.
pub open spec fn field_from<A>(b: Seq<A>, sep: A, start: int, k: nat) -> Option<Seq<A>>
    decreases k,
{
    let e = next_separator(b, sep, start);
    if k == 0 {
        Some(b.subrange(start, e))
    } else if e >= b.len() {
        None
    } else {
        field_from(b, sep, e + 1, (k - 1) as nat)
    }
}

/// The `k`-th field (from zero) of `b` split at every `sep`, as
/// `str::split` yields them; `None` when `b` has fewer fields.
pub open spec fn field<A>(b: Seq<A>, sep: A, k: nat) -> Option<Seq<A>> {
    field_from(b, sep, 0, k)
}

proof fn lemma_next_separator_bounds<A>(b: Seq<A>, sep: A, i: int)
    requires
        0 <= i <= b.len(),
    ensures
        i <= next_separator(b, sep, i) <= b.len(),
    decreases b.len() - i,
{
    if i < b.len() && b[i] != sep {
        lemma_next_separator_bounds(b, sep, i + 1);
    }
}

fn find_separator(b: &[u8], start: usize) -> (r: usize)
    requires
        start <= b@.len(),
    ensures
        r == next_separator(b@, SEPARATOR, start as int),
        start <= r <= b@.len(),
{
    proof {
        lemma_next_separator_bounds(b@, SEPARATOR, start as int);
    }
    let mut i: usize = start;
    while i < b.len()
        invariant
            start <= i <= b@.len(),
            next_separator(b@, SEPARATOR, i as int) == next_separator(b@, SEPARATOR, start as int),
        decreases b@.len() - i,
    {
        if b[i] == SEPARATOR {
            return i;
        }
        i = i + 1;
    }
    i
}

/// The `k`-th field (from zero) of `b` split at every `:`.
pub fn payload_field(b: &[u8], k: usize) -> (r: Option<Vec<u8>>)
    ensures
        r.is_some() == field(b@, SEPARATOR, k as nat).is_some(),
        r.is_some() ==> r.unwrap()@ == field(b@, SEPARATOR, k as nat).unwrap(),
{
    let mut start: usize = 0;
    let mut j: usize = k;
    loop
        invariant
            start <= b@.len(),
            field_from(b@, SEPARATOR, start as int, j as nat) == field(b@, SEPARATOR, k as nat),
        decreases j,
    {
        let e = find_separator(b, start);
        if j == 0 {
            return Some(copy_range(b, start, e));
        }
        if e >= b.len() {
            return None;
        }
        start = e + 1;
        j = j - 1;
    }
}

fn find_separator_char(s: &str, start: usize) -> (r: usize)
    requires
        start <= s@.len(),
    ensures
        r == next_separator(s@, ':', start as int),
        start <= r <= s@.len(),
{
    proof {
        lemma_next_separator_bounds(s@, ':', start as int);
    }
    let n = s.unicode_len();
    let mut i: usize = start;
    while i < n
        invariant
            n == s@.len(),
            start <= i <= n,
            next_separator(s@, ':', i as int) == next_separator(s@, ':', start as int),
        decreases n - i,
    {
        if s.get_char(i) == ':' {
            return i;
        }
        i = i + 1;
    }
    i
}

/// The `k`-th field (from zero) of `s` split at every `:`.
pub fn text_field(s: &str, k: usize) -> (r: Option<String>)
    ensures
        r.is_some() == field(s@, ':', k as nat).is_some(),
        r.is_some() ==> r.unwrap()@ == field(s@, ':', k as nat).unwrap(),
{
    let n = s.unicode_len();
    let mut start: usize = 0;
    let mut j: usize = k;
    loop
        invariant
            n == s@.len(),
            start <= s@.len(),
            field_from(s@, ':', start as int, j as nat) == field(s@, ':', k as nat),
        decreases j,
    {
        let e = find_separator_char(s, start);
        if j == 0 {
            return Some(s.substring_char(start, e).to_string());
        }
        if e >= n {
            return None;
        }
        start = e + 1;
        j = j - 1;
    }
}

} // verus!
