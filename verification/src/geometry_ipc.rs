//! Parsing of the window manager's geometry reply.
//!
//! The geometry worker asks the window manager over its own IPC for the
//! active window and receives a JSON-ish object that carries the
//! position under an `"at"` key and the size under a `"size"` key, each
//! as a bracketed pair of integers. This parser extracts those four
//! numbers; on any malformed reply it yields nothing, and the lookup
//! counts as failed.

use vstd::prelude::*;

use crate::geometry_provider::Geometry;

verus! {

/// An ASCII decimal digit.
pub open spec fn spec_is_digit(b: u8) -> bool {
    48 <= b <= 57
}

/// The first index at or after `i` that holds no space.
pub open spec fn spec_skip_spaces(s: Seq<u8>, i: int) -> int
    decreases s.len() - i,
{
    if 0 <= i < s.len() && s[i] == 32 {
        spec_skip_spaces(s, i + 1)
    } else {
        i
    }
}

/// The first index at or after `i` that holds no digit.
pub open spec fn spec_digits_end(s: Seq<u8>, i: int) -> int
    decreases s.len() - i,
{
    if 0 <= i < s.len() && spec_is_digit(s[i]) {
        spec_digits_end(s, i + 1)
    } else {
        i
    }
}

/// The number the digits of `s` between `i` and `j` spell.
pub open spec fn spec_digits_value(s: Seq<u8>, i: int, j: int) -> int
    decreases j - i,
{
    if i >= j {
        0
    } else {
        spec_digits_value(s, i, j - 1) * 10 + (s[j - 1] - 48)
    }
}

/// An optionally negated integer of one to nine digits starting at `i`:
/// its value and the index just past it.
pub open spec fn spec_parse_int(s: Seq<u8>, i: int) -> Option<(int, int)> {
    let neg = 0 <= i < s.len() && s[i] == 45;
    let start = if neg {
        i + 1
    } else {
        i
    };
    let end = spec_digits_end(s, start);
    if end == start || end - start > 9 {
        None
    } else if neg {
        Some((-spec_digits_value(s, start, end), end))
    } else {
        Some((spec_digits_value(s, start, end), end))
    }
}

/// The least index where `pat` occurs in `s`.
pub open spec fn spec_find(s: Seq<u8>, pat: Seq<u8>) -> Option<int>
    decreases s.len(),
{
    if s.len() < pat.len() {
        None
    } else if s.subrange(0, pat.len() as int) == pat {
        Some(0)
    } else if s.len() == 0 {
        None
    } else {
        match spec_find(s.skip(1), pat) {
            Some(i) => Some(i + 1),
            None => None,
        }
    }
}

/// A bracketed integer pair following the first occurrence of `key`:
/// `[` after optional spaces, an integer, `,` after optional spaces,
/// and a second integer.
pub open spec fn spec_pair_after(s: Seq<u8>, key: Seq<u8>) -> Option<(int, int)> {
    match spec_find(s, key) {
        None => None,
        Some(k) => {
            let i = spec_skip_spaces(s, k + key.len());
            if !(i < s.len() && s[i] == 91) {
                None
            } else {
                let j = spec_skip_spaces(s, i + 1);
                match spec_parse_int(s, j) {
                    None => None,
                    Some((a, e1)) => {
                        let m = spec_skip_spaces(s, e1);
                        if !(m < s.len() && s[m] == 44) {
                            None
                        } else {
                            match spec_parse_int(s, spec_skip_spaces(s, m + 1)) {
                                None => None,
                                Some((b, _)) => Some((a, b)),
                            }
                        }
                    },
                }
            }
        },
    }
}

/// The `"at"` pair.
pub open spec fn spec_at_key() -> Seq<u8> {
    seq![34u8, 97u8, 116u8, 34u8, 58u8]
}

/// The `"size"` pair.
pub open spec fn spec_size_key() -> Seq<u8> {
    seq![34u8, 115u8, 105u8, 122u8, 101u8, 34u8, 58u8]
}

/// The geometry the reply describes: the `"at"` position and the
/// `"size"` dimensions, or nothing from a malformed reply.
pub open spec fn spec_parse_active_window(s: Seq<u8>) -> Option<Geometry> {
    match (spec_pair_after(s, spec_at_key()), spec_pair_after(s, spec_size_key())) {
        (Some((x, y)), Some((w, h))) => Some((x as i32, y as i32, w as i32, h as i32)),
        _ => None,
    }
}

/// `spec_find` names the least occurrence, and fails only when none
/// exists.
proof fn lemma_find_props(s: Seq<u8>, pat: Seq<u8>)
    ensures
        match spec_find(s, pat) {
            Some(i) => 0 <= i && i + pat.len() <= s.len() && s.subrange(i, i + pat.len() as int)
                == pat
                && (forall|j: int|
                0 <= j < i ==> #[trigger] s.subrange(j, j + pat.len() as int) != pat),
            None => forall|j: int|
                0 <= j && j + pat.len() <= s.len() ==> #[trigger] s.subrange(
                    j,
                    j + pat.len() as int,
                ) != pat,
        },
    decreases s.len(),
{
    if s.len() >= pat.len() && s.subrange(0, pat.len() as int) != pat && s.len() > 0 {
        lemma_find_props(s.skip(1), pat);
        assert forall|j: int|
            1 <= j && j + pat.len() <= s.len() implies #[trigger] s.subrange(
            j,
            j + pat.len() as int,
        ) == s.skip(1).subrange(j - 1, j - 1 + pat.len() as int) by {
            assert(s.subrange(j, j + pat.len() as int) =~= s.skip(1).subrange(
                j - 1,
                j - 1 + pat.len() as int,
            ));
        }
    }
}

fn skip_spaces(s: &Vec<u8>, from: usize) -> (r: usize)
    requires
        from <= s@.len(),
    ensures
        r == spec_skip_spaces(s@, from as int),
        from <= r <= s@.len(),
{
    let mut i = from;
    while i < s.len() && s[i] == 32
        invariant
            from <= i <= s@.len(),
            spec_skip_spaces(s@, from as int) == spec_skip_spaces(s@, i as int),
        decreases s@.len() - i,
    {
        i = i + 1;
    }
    i
}

/// Ten to the power `n`.
pub open spec fn spec_pow10(n: nat) -> int
    decreases n,
{
    if n == 0 {
        1
    } else {
        10 * spec_pow10((n - 1) as nat)
    }
}

proof fn lemma_pow10_mono(a: nat, b: nat)
    requires
        a <= b,
    ensures
        1 <= spec_pow10(a) <= spec_pow10(b),
    decreases b,
{
    if a == b {
        if a > 0 {
            lemma_pow10_mono((a - 1) as nat, (a - 1) as nat);
        }
    } else {
        lemma_pow10_mono(a, (b - 1) as nat);
    }
}

/// Where the digits that start at `i` really end: at the first index
/// whose byte is no digit.
proof fn lemma_digits_end_char(s: Seq<u8>, start: int, i: int)
    requires
        0 <= start <= i <= s.len(),
        forall|k: int| start <= k < i ==> spec_is_digit(#[trigger] s[k]),
        i == s.len() || !spec_is_digit(s[i]),
    ensures
        spec_digits_end(s, start) == i,
    decreases i - start,
{
    if start < i {
        lemma_digits_end_char(s, start + 1, i);
    }
}

/// With a digit at `i` and digits all the way there, the digits end
/// only past `i`.
proof fn lemma_digits_end_past(s: Seq<u8>, start: int, i: int)
    requires
        0 <= start <= i < s.len(),
        forall|k: int| start <= k < i ==> spec_is_digit(#[trigger] s[k]),
        spec_is_digit(s[i]),
    ensures
        spec_digits_end(s, start) > i,
    decreases i - start,
{
    if start < i {
        lemma_digits_end_past(s, start + 1, i);
    } else {
        lemma_digits_end_ge(s, start + 1);
    }
}

/// Digits never end before where they start.
proof fn lemma_digits_end_ge(s: Seq<u8>, i: int)
    ensures
        spec_digits_end(s, i) >= i,
    decreases s.len() - i,
{
    if 0 <= i < s.len() && spec_is_digit(s[i]) {
        lemma_digits_end_ge(s, i + 1);
    }
}

fn parse_int(s: &Vec<u8>, from: usize) -> (r: Option<(i32, usize)>)
    requires
        from <= s@.len(),
    ensures
        match r {
            Some(p) => spec_parse_int(s@, from as int) == Some((p.0 as int, p.1 as int))
                && p.1 <= s@.len(),
            None => spec_parse_int(s@, from as int) is None,
        },
{
    let neg = from < s.len() && s[from] == 45;
    let start = if neg {
        from + 1
    } else {
        from
    };
    let mut i = start;
    let mut value: i64 = 0;
    while i < s.len() && 48 <= s[i] && s[i] <= 57 && i - start < 9
        invariant
            start <= i <= s@.len(),
            i - start <= 9,
            forall|k: int| start <= k < i ==> spec_is_digit(#[trigger] s@[k]),
            value == spec_digits_value(s@, start as int, i as int),
            0 <= value < spec_pow10((i - start) as nat),
        decreases s@.len() - i,
    {
        proof {
            reveal_with_fuel(spec_pow10, 11);
            lemma_pow10_mono((i - start) as nat, 8);
            assert(spec_pow10(8) == 100000000);
            assert(spec_pow10(((i + 1) - start) as nat) == 10 * spec_pow10((i - start) as nat));
        }
        value = value * 10 + ((s[i] - 48) as i64);
        i = i + 1;
    }
    proof {
        reveal_with_fuel(spec_pow10, 11);
        lemma_pow10_mono((i - start) as nat, 9);
        assert(spec_pow10(9) == 1000000000);
    }
    if i == start {
        proof {
            lemma_digits_end_char(s@, start as int, i as int);
        }
        return None;
    }
    if i < s.len() && 48 <= s[i] && s[i] <= 57 {
        // a tenth digit: the number is longer than accepted
        proof {
            lemma_digits_end_past(s@, start as int, i as int);
        }
        return None;
    }
    proof {
        lemma_digits_end_char(s@, start as int, i as int);
    }
    if neg {
        Some((-(value as i32), i))
    } else {
        Some((value as i32, i))
    }
}

fn find_pattern(s: &Vec<u8>, pat: &Vec<u8>) -> (r: Option<usize>)
    requires
        pat@.len() >= 1,
    ensures
        match r {
            Some(i) => spec_find(s@, pat@) == Some(i as int),
            None => spec_find(s@, pat@) is None,
        },
{
    proof {
        lemma_find_props(s@, pat@);
    }
    let n = s.len();
    if n < pat.len() {
        return None;
    }
    let mut i: usize = 0;
    while i <= s.len() - pat.len()
        invariant
            n == s@.len(),
            s@.len() >= pat@.len(),
            i <= s@.len() - pat@.len() + 1,
            forall|j: int|
                0 <= j < i ==> #[trigger] s@.subrange(j, j + pat@.len() as int) != pat@,
        decreases s@.len() - i,
    {
        let mut k: usize = 0;
        let mut hit = true;
        while k < pat.len()
            invariant
                n == s@.len(),
                i + pat@.len() <= s@.len(),
                k <= pat@.len(),
                hit == (s@.subrange(i as int, i as int + k as int) =~= pat@.subrange(
                    0,
                    k as int,
                )),
            decreases pat@.len() - k,
        {
            let ghost pre = s@.subrange(i as int, i as int + k as int);
            proof {
                assert(i + k < s@.len());
            }
            if s[i + k] != pat[k] {
                hit = false;
                proof {
                    assert(s@.subrange(i as int, i as int + k as int + 1)[k as int] != pat@.subrange(
                        0,
                        k as int + 1,
                    )[k as int]);
                }
            }
            proof {
                if hit {
                    assert(s@.subrange(i as int, i as int + k as int + 1) =~= pre.push(
                        s@[i + k],
                    ));
                    assert(pat@.subrange(0, k as int + 1) =~= pat@.subrange(0, k as int).push(
                        pat@[k as int],
                    ));
                }
                if !hit {
                    if s@.subrange(i as int, i as int + k as int + 1) =~= pat@.subrange(
                        0,
                        k as int + 1,
                    ) {
                        assert(s@.subrange(i as int, i as int + k as int + 1).take(k as int)
                            =~= s@.subrange(i as int, i as int + k as int));
                        assert(pat@.subrange(0, k as int + 1).take(k as int) =~= pat@.subrange(
                            0,
                            k as int,
                        ));
                    }
                }
            }
            k = k + 1;
        }
        if hit {
            proof {
                lemma_find_props(s@, pat@);
                assert(pat@.subrange(0, pat@.len() as int) =~= pat@);
                assert(s@.subrange(i as int, i as int + pat@.len() as int) == pat@);
                match spec_find(s@, pat@) {
                    Some(m) => {
                        assert(!(m < i) && !(i < m));
                    }
                    None => {
                        assert(false);
                    }
                }
            }
            return Some(i);
        }
        proof {
            assert(pat@.subrange(0, pat@.len() as int) =~= pat@);
            assert(s@.subrange(i as int, i as int + pat@.len() as int) != pat@);
        }
        i = i + 1;
    }
    proof {
        lemma_find_props(s@, pat@);
        if let Some(m) = spec_find(s@, pat@) {
            assert(s@.subrange(m, m + pat@.len() as int) != pat@);
        }
    }
    None
}

fn pair_after(s: &Vec<u8>, pat: &Vec<u8>) -> (r: Option<(i32, i32)>)
    requires
        pat@.len() >= 1,
    ensures
        match r {
            Some(p) => spec_pair_after(s@, pat@) == Some((p.0 as int, p.1 as int)),
            None => spec_pair_after(s@, pat@) is None,
        },
{
    let k = match find_pattern(s, pat) {
        Some(k) => k,
        None => {
            return None;
        },
    };
    let total = s.len();
    proof {
        lemma_find_props(s@, pat@);
        assert(k + pat@.len() <= total as int);
    }
    let i = skip_spaces(s, k + pat.len());
    if !(i < s.len() && s[i] == 91) {
        return None;
    }
    let j = skip_spaces(s, i + 1);
    let (a, e1) = match parse_int(s, j) {
        Some(p) => p,
        None => {
            return None;
        },
    };
    let m = skip_spaces(s, e1);
    if !(m < s.len() && s[m] == 44) {
        return None;
    }
    let n = skip_spaces(s, m + 1);
    match parse_int(s, n) {
        Some((b, _)) => Some((a, b)),
        None => None,
    }
}

/// Extract the active window's geometry from the window manager's
/// reply: the `"at"` position and the `"size"` dimensions. Any reply
/// without both well-formed pairs yields nothing, and the lookup
/// simply goes unanswered.
pub fn parse_active_window_reply(reply: &Vec<u8>) -> (r: Option<Geometry>)
    ensures
        r == spec_parse_active_window(reply@),
{
    let mut at_key: Vec<u8> = Vec::new();
    at_key.push(34);
    at_key.push(97);
    at_key.push(116);
    at_key.push(34);
    at_key.push(58);
    let mut size_key: Vec<u8> = Vec::new();
    size_key.push(34);
    size_key.push(115);
    size_key.push(105);
    size_key.push(122);
    size_key.push(101);
    size_key.push(34);
    size_key.push(58);
    proof {
        assert(at_key@ =~= spec_at_key());
        assert(size_key@ =~= spec_size_key());
    }
    let at = pair_after(reply, &at_key);
    let size = pair_after(reply, &size_key);
    match (at, size) {
        (Some((x, y)), Some((w, h))) => Some((x, y, w, h)),
        _ => None,
    }
}

} // verus!
