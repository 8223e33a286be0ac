use vstd::prelude::*;
use vstd::string::*;

verus! {

/// Unicode's `White_Space` property, which `char::is_whitespace` tests.
pub open spec fn is_space(c: char) -> bool {
    let u = c as u32;
    (0x09 <= u <= 0x0D) || u == 0x20 || u == 0x85 || u == 0xA0 || u == 0x1680 || (0x2000 <= u
        <= 0x200A) || u == 0x2028 || u == 0x2029 || u == 0x202F || u == 0x205F || u == 0x3000
}

/// The spans `[start, end)` of the maximal runs of non-space characters of
/// `s`, in order: the pieces that `str::split_whitespace` yields.
pub open spec fn token_spans(s: Seq<char>) -> Seq<(int, int)>
    decreases s.len(),
{
    if s.len() == 0 {
        Seq::empty()
    } else {
        let n = s.len() - 1;
        let prev = token_spans(s.subrange(0, n));
        if is_space(s[n]) {
            prev
        } else if n > 0 && !is_space(s[n - 1]) {
            prev.update(prev.len() - 1, (prev.last().0, n + 1))
        } else {
            prev.push((n, n + 1))
        }
    }
}

/// Value of a digit in bases up to 36, letters in either case; 36 or more
/// for a character that is no digit at all.
pub open spec fn digit_value(c: char) -> nat {
    if '0' <= c <= '9' {
        (c as u32 - '0' as u32) as nat
    } else if 'a' <= c <= 'z' {
        (c as u32 - 'a' as u32 + 10) as nat
    } else if 'A' <= c <= 'Z' {
        (c as u32 - 'A' as u32 + 10) as nat
    } else {
        36
    }
}

/// The number that the digits `d` write in base `radix`.
pub open spec fn digits_value(d: Seq<char>, radix: nat) -> nat
    decreases d.len(),
{
    if d.len() == 0 {
        0
    } else {
        digits_value(d.drop_last(), radix) * radix + digit_value(d.last())
    }
}

/// `t` without one leading `+`, if it has one.
pub open spec fn unsigned_digits(t: Seq<char>) -> Seq<char> {
    if t.len() > 0 && t[0] == '+' {
        t.drop_first()
    } else {
        t
    }
}

/// Every character of `d` is a digit of base `radix`.
pub open spec fn all_digits(d: Seq<char>, radix: nat) -> bool {
    forall|i: int| 0 <= i < d.len() ==> digit_value(#[trigger] d[i]) < radix
}

/// What `u8::from_str_radix` gives for `t`: an optional `+`, then one or
/// more digits of base `radix` whose value fits in a byte.
pub open spec fn token_value(t: Seq<char>, radix: nat) -> Option<u8> {
    let d = unsigned_digits(t);
    if d.len() > 0 && all_digits(d, radix) && digits_value(d, radix) <= 255 {
        Some(digits_value(d, radix) as u8)
    } else {
        None
    }
}

/// The outcome of reading the whitespace-separated tokens `toks` of `s` as
/// bytes: every value, or the first token that is no byte.
pub open spec fn parse_spans(s: Seq<char>, toks: Seq<(int, int)>, radix: nat) -> Result<Seq<u8>, Seq<char>>
    decreases toks.len(),
{
    if toks.len() == 0 {
        Ok(Seq::empty())
    } else {
        let t = s.subrange(toks[0].0, toks[0].1);
        match token_value(t, radix) {
            None => Err(t),
            Some(b) => match parse_spans(s, toks.drop_first(), radix) {
                Ok(rest) => Ok(seq![b] + rest),
                Err(bad) => Err(bad),
            },
        }
    }
}

/// Token spans as integers.
pub open spec fn spans_view(v: Seq<(usize, usize)>) -> Seq<(int, int)> {
    v.map_values(|p: (usize, usize)| (p.0 as int, p.1 as int))
}

/// `prefix` put before the bytes of a successful outcome.
pub open spec fn prepend(prefix: Seq<u8>, r: Result<Seq<u8>, Seq<char>>) -> Result<Seq<u8>, Seq<char>> {
    match r {
        Ok(b) => Ok(prefix + b),
        Err(t) => Err(t),
    }
}

fn is_space_char(c: char) -> (r: bool)
    ensures
        r == is_space(c),
{
    let u = c as u32;
    (0x09 <= u && u <= 0x0D) || u == 0x20 || u == 0x85 || u == 0xA0 || u == 0x1680 || (0x2000 <= u
        && u <= 0x200A) || u == 0x2028 || u == 0x2029 || u == 0x202F || u == 0x205F || u == 0x3000
}

fn digit_of(c: char) -> (r: u32)
    ensures
        r == digit_value(c),
{
    if '0' <= c && c <= '9' {
        c as u32 - '0' as u32
    } else if 'a' <= c && c <= 'z' {
        c as u32 - 'a' as u32 + 10
    } else if 'A' <= c && c <= 'Z' {
        c as u32 - 'A' as u32 + 10
    } else {
        36
    }
}

proof fn lemma_prefix_value_le(d: Seq<char>, radix: nat, j: int)
    requires
        0 <= j <= d.len(),
        radix >= 1,
    ensures
        digits_value(d.subrange(0, j), radix) <= digits_value(d, radix),
    decreases d.len(),
{
    if j < d.len() {
        lemma_prefix_value_le(d.drop_last(), radix, j);
        assert(d.drop_last().subrange(0, j) =~= d.subrange(0, j));
        let v = digits_value(d.drop_last(), radix);
        assert(v * radix >= v) by (nonlinear_arith)
            requires
                radix >= 1,
        ;
    } else {
        assert(d.subrange(0, j) =~= d);
    }
}

/// The whitespace-separated tokens of `s`, as character spans.
pub fn spans_of(s: &str) -> (r: Vec<(usize, usize)>)
    ensures
        spans_view(r@) == token_spans(s@),
        forall|j: int| 0 <= j < r@.len() ==> (#[trigger] r@[j]).0 < r@[j].1 <= s@.len(),
{
    let n = s.unicode_len();
    let mut r: Vec<(usize, usize)> = Vec::new();
    let mut in_token = false;
    let mut i: usize = 0;
    while i < n
        invariant
            n == s@.len(),
            i <= n,
            spans_view(r@) == token_spans(s@.subrange(0, i as int)),
            in_token == (i > 0 && !is_space(s@[i - 1])),
            in_token ==> r@.len() > 0 && r@.last().1 == i,
            forall|j: int| 0 <= j < r@.len() ==> (#[trigger] r@[j]).0 < r@[j].1 <= i,
        decreases n - i,
    {
        let c = s.get_char(i);
        let ghost pre = s@.subrange(0, i + 1);
        assert(pre.subrange(0, i as int) =~= s@.subrange(0, i as int));
        assert(pre[i as int] == c);
        if is_space_char(c) {
            in_token = false;
        } else if in_token {
            assert(pre[i - 1] == s@[i - 1]);
            let last = r.pop().unwrap();
            r.push((last.0, i + 1));
            assert(spans_view(r@) =~= token_spans(pre));
            in_token = true;
        } else {
            r.push((i, i + 1));
            assert(i > 0 ==> pre[i - 1] == s@[i - 1]);
            assert(spans_view(r@) =~= token_spans(pre));
            in_token = true;
        }
        i = i + 1;
    }
    assert(s@.subrange(0, n as int) =~= s@);
    r
}

/// The byte that the characters `s[lo..hi]` write in base `radix`, if any.
fn parse_span(s: &str, lo: usize, hi: usize, radix: u8) -> (r: Option<u8>)
    requires
        lo < hi <= s@.len(),
        2 <= radix <= 36,
    ensures
        r == token_value(s@.subrange(lo as int, hi as int), radix as nat),
{
    let ghost t = s@.subrange(lo as int, hi as int);
    let mut start = lo;
    assert(t[0] == s@[lo as int]);
    if s.get_char(lo) == '+' {
        start = lo + 1;
        assert(t.drop_first() =~= s@.subrange(start as int, hi as int));
    } else {
        assert(t =~= s@.subrange(start as int, hi as int));
    }
    let ghost d = s@.subrange(start as int, hi as int);
    assert(d == unsigned_digits(t));
    if start == hi {
        return None;
    }
    let r = radix as u32;
    let mut val: u32 = 0;
    let mut k = start;
    while k < hi
        invariant
            lo <= start <= k <= hi <= s@.len(),
            d == s@.subrange(start as int, hi as int),
            t == s@.subrange(lo as int, hi as int),
            d == unsigned_digits(t),
            d.len() > 0,
            r == radix as u32,
            2 <= r <= 36,
            val <= 255,
            val == digits_value(d.subrange(0, k - start), r as nat),
            forall|i: int| 0 <= i < k - start ==> digit_value(#[trigger] d[i]) < r,
        decreases hi - k,
    {
        let dv = digit_of(s.get_char(k));
        assert(d[k - start] == s@[k as int]);
        if dv >= r {
            assert(digit_value(d[k - start]) >= radix);
            return None;
        }
        let ghost next = d.subrange(0, k + 1 - start);
        assert(next.drop_last() =~= d.subrange(0, k - start));
        assert(next.last() == d[k - start]);
        assert(digits_value(next, r as nat) == val * r + dv);
        assert(val * r <= 255 * 36) by (nonlinear_arith)
            requires
                val <= 255,
                r <= 36,
        ;
        val = val * r + dv;
        k = k + 1;
        if val > 255 {
            proof {
                lemma_prefix_value_le(d, r as nat, k - start);
            }
            return None;
        }
    }
    assert(d.subrange(0, k - start) =~= d);
    assert(all_digits(d, radix as nat));
    Some(val as u8)
}

/// Reads the whitespace-separated tokens of `input` as bytes written in base
/// `radix`, each as `u8::from_str_radix` reads it; the first token that is no
/// byte gives the error `Invalid hex: <token>`. The base matters, and must be
/// one that `from_str_radix` takes, only when there is a token.
pub fn parse_bytes(input: &str, radix: u8) -> (r: Result<Vec<u8>, String>)
    requires
        token_spans(input@).len() > 0 ==> 2 <= radix <= 36,
    ensures
        match parse_spans(input@, token_spans(input@), radix as nat) {
            Ok(b) => r is Ok && r->Ok_0@ == b,
            Err(t) => r is Err && r->Err_0@ == "Invalid hex: "@ + t,
        },
{
    let spans = spans_of(input);
    let ghost toks = token_spans(input@);
    let mut out: Vec<u8> = Vec::new();
    let mut j: usize = 0;
    proof {
        assert(toks.subrange(0, toks.len() as int) =~= toks);
        match parse_spans(input@, toks, radix as nat) {
            Ok(b) => {
                assert(Seq::<u8>::empty() + b =~= b);
            },
            Err(_) => {},
        }
    }
    while j < spans.len()
        invariant
            spans_view(spans@) == toks,
            toks == token_spans(input@),
            j <= spans@.len(),
            forall|i: int| 0 <= i < spans@.len() ==> (#[trigger] spans@[i]).0 < spans@[i].1 <= input@.len(),
            parse_spans(input@, toks, radix as nat) == prepend(
                out@,
                parse_spans(input@, toks.subrange(j as int, toks.len() as int), radix as nat),
            ),
            spans@.len() > 0 ==> 2 <= radix <= 36,
        decreases spans@.len() - j,
    {
        let (lo, hi) = spans[j];
        let ghost rest = toks.subrange(j as int, toks.len() as int);
        assert(rest[0] == (lo as int, hi as int));
        assert(rest.drop_first() =~= toks.subrange(j + 1, toks.len() as int));
        match parse_span(input, lo, hi, radix) {
            None => {
                let msg = "Invalid hex: ".to_string().concat(input.substring_char(lo, hi));
                return Err(msg);
            },
            Some(b) => {
                let ghost before = out@;
                out.push(b);
                proof {
                    let tail = parse_spans(input@, toks.subrange(j + 1, toks.len() as int), radix as nat);
                    match tail {
                        Ok(bs) => {
                            assert(before + (seq![b] + bs) =~= out@ + bs);
                        },
                        Err(_) => {},
                    }
                }
            },
        }
        j = j + 1;
    }
    assert(toks.subrange(j as int, toks.len() as int) =~= Seq::<(int, int)>::empty());
    assert(out@ + Seq::<u8>::empty() =~= out@);
    Ok(out)
}

} // verus!
