//! Reading the resident set size out of the kernel's per-process memory
//! statistics (`/proc/self/statm`, whose fields count pages).

use vstd::prelude::*;

use crate::text::{chars_of, is_white_space, is_white_space_char};

verus! {

/// The whitespace-separated fields of `s`, in order.
pub open spec fn fields(s: Seq<char>) -> Seq<Seq<char>>
    decreases s.len(),
{
    if s.len() == 0 {
        seq![]
    } else {
        let rest = fields(s.drop_first());
        if is_white_space(s[0]) {
            rest
        } else if s.len() > 1 && !is_white_space(s[1]) {
            rest.update(0, seq![s[0]] + rest[0])
        } else {
            seq![seq![s[0]]] + rest
        }
    }
}

/// Whether every character of `t` is an ASCII digit.
pub open spec fn all_digits(t: Seq<char>) -> bool {
    forall|i: int| 0 <= i < t.len() ==> '0' <= #[trigger] t[i] <= '9'
}

/// The number that the decimal digits `t` write.
pub open spec fn digits_value(t: Seq<char>) -> nat
    decreases t.len(),
{
    if t.len() == 0 {
        0
    } else {
        digits_value(t.drop_last()) * 10 + ((t.last() as int - '0' as int) as nat)
    }
}

/// `t` read as an unsigned 64-bit decimal number: digits, optionally after
/// a `+`, whose value fits.
pub open spec fn parse_u64(t: Seq<char>) -> Option<u64> {
    let d = if t.len() > 1 && t[0] == '+' {
        t.drop_first()
    } else {
        t
    };
    if d.len() > 0 && all_digits(d) && digits_value(d) <= u64::MAX {
        Some(digits_value(d) as u64)
    } else {
        None
    }
}

/// Resident set size, in pages, that a `statm` line gives: its second
/// field, when that is a number.
pub open spec fn statm_resident_pages(statm: Seq<char>) -> Option<u64> {
    let f = fields(statm);
    if f.len() >= 2 {
        parse_u64(f[1])
    } else {
        None
    }
}

/// Leading whitespace does not change the fields.
proof fn lemma_fields_skip_space(s: Seq<char>, a: int)
    requires
        0 <= a <= s.len(),
        forall|i: int| 0 <= i < a ==> is_white_space(#[trigger] s[i]),
    ensures
        fields(s) == fields(s.skip(a)),
    decreases a,
{
    if a == 0 {
        assert(s.skip(0) =~= s);
    } else {
        let t = s.drop_first();
        assert forall|i: int| 0 <= i < a - 1 implies is_white_space(#[trigger] t[i]) by {
            assert(t[i] == s[i + 1]);
        }
        lemma_fields_skip_space(t, a - 1);
        assert(t.skip(a - 1) =~= s.skip(a));
    }
}

/// A leading run of `b` non-whitespace characters ended by whitespace or
/// by the end of `s` is the first field.
proof fn lemma_fields_first(s: Seq<char>, b: int)
    requires
        1 <= b <= s.len(),
        forall|i: int| 0 <= i < b ==> !is_white_space(#[trigger] s[i]),
        b == s.len() || is_white_space(s[b]),
    ensures
        fields(s) == seq![s.take(b)] + fields(s.skip(b)),
    decreases b,
{
    let t = s.drop_first();
    assert(t =~= s.skip(1));
    if b == 1 {
        assert(s.take(1) =~= seq![s[0]]);
        assert(!is_white_space(s[0]));
    } else {
        assert(!is_white_space(s[0]));
        assert(!is_white_space(s[1]));
        assert forall|i: int| 0 <= i < b - 1 implies !is_white_space(#[trigger] t[i]) by {
            assert(t[i] == s[i + 1]);
        }
        assert(b - 1 == t.len() || is_white_space(t[b - 1]));
        lemma_fields_first(t, b - 1);
        assert(t.skip(b - 1) =~= s.skip(b));
        assert(seq![s[0]] + t.take(b - 1) =~= s.take(b));
        assert(fields(s) =~= seq![s.take(b)] + fields(s.skip(b)));
    }
}

proof fn lemma_digits_value_grows(t: Seq<char>, k: int)
    requires
        0 <= k <= t.len(),
        all_digits(t),
    ensures
        digits_value(t.take(k)) <= digits_value(t),
    decreases t.len() - k,
{
    if k < t.len() {
        let u = t.take(k + 1);
        assert(u.drop_last() =~= t.take(k));
        assert('0' <= t[k] <= '9');
        lemma_digits_value_grows(t, k + 1);
    } else {
        assert(t.take(k) =~= t);
    }
}

/// Index of the first character at or after `from` that is whitespace
/// (`is_space`) or not (`!is_space`), or the length of `s`.
fn scan(s: &Vec<char>, from: usize, is_space: bool) -> (r: usize)
    requires
        from <= s@.len(),
    ensures
        from <= r <= s@.len(),
        forall|i: int| from <= i < r ==> is_white_space(#[trigger] s@[i]) != is_space,
        r == s@.len() || is_white_space(s@[r as int]) == is_space,
{
    let mut k = from;
    while k < s.len() && is_white_space_char(s[k]) != is_space
        invariant
            from <= k <= s@.len(),
            forall|i: int| from <= i < k ==> is_white_space(#[trigger] s@[i]) != is_space,
        decreases s@.len() - k,
    {
        k = k + 1;
    }
    k
}

/// The digits `s[a..b]` read as an unsigned 64-bit decimal number, as
/// `str::parse::<u64>` reads them.
fn parse_u64_range(s: &Vec<char>, a: usize, b: usize) -> (r: Option<u64>)
    requires
        a <= b <= s@.len(),
    ensures
        r == parse_u64(s@.subrange(a as int, b as int)),
{
    let ghost t = s@.subrange(a as int, b as int);
    let start = if b - a > 1 && s[a] == '+' {
        a + 1
    } else {
        a
    };
    let ghost d = s@.subrange(start as int, b as int);
    proof {
        if b - a > 1 && t[0] == '+' {
            assert(d =~= t.drop_first());
        } else {
            assert(d =~= t);
        }
    }
    if start == b {
        return None;
    }
    proof {
        assert(parse_u64(t) == if all_digits(d) && digits_value(d) <= u64::MAX {
            Some(digits_value(d) as u64)
        } else {
            None
        });
    }
    let mut value: u64 = 0;
    let mut k = start;
    while k < b
        invariant
            start <= k <= b <= s@.len(),
            d == s@.subrange(start as int, b as int),
            t == s@.subrange(a as int, b as int),
            parse_u64(t) == if all_digits(d) && digits_value(d) <= u64::MAX {
                Some(digits_value(d) as u64)
            } else {
                None
            },
            value == digits_value(d.take(k - start)),
            all_digits(d.take(k - start)),
        decreases b - k,
    {
        let c = s[k];
        proof {
            assert(d[k - start] == c);
        }
        if c < '0' || c > '9' {
            assert(!all_digits(d));
            return None;
        }
        let digit = (c as u32 - '0' as u32) as u64;
        proof {
            let u = d.take(k - start + 1);
            assert(u.drop_last() =~= d.take(k - start));
            assert(u.last() == c);
            assert(all_digits(u));
        }
        match value.checked_mul(10) {
            Some(tens) => match tens.checked_add(digit) {
                Some(next) => {
                    value = next;
                },
                None => {
                    proof {
                        if all_digits(d) {
                            lemma_digits_value_grows(d, k - start + 1);
                        }
                    }
                    return None;
                },
            },
            None => {
                proof {
                    if all_digits(d) {
                        lemma_digits_value_grows(d, k - start + 1);
                    }
                }
                return None;
            },
        }
        k = k + 1;
    }
    proof {
        assert(d.take(b - start) =~= d);
    }
    Some(value)
}

/// Resident set size in pages that the contents of `/proc/self/statm`
/// give: the second whitespace-separated field read as a number, or `None`
/// when there is none or it is not a number.
pub fn resident_pages(statm: &str) -> (r: Option<u64>)
    ensures
        r == statm_resident_pages(statm@),
{
    let s = chars_of(statm);
    let ghost g = s@;
    let a0 = scan(&s, 0, false);
    proof {
        lemma_fields_skip_space(g, a0 as int);
    }
    if a0 == s.len() {
        proof {
            assert(g.skip(a0 as int) =~= Seq::<char>::empty());
        }
        return None;
    }
    let b0 = scan(&s, a0, true);
    let a1 = scan(&s, b0, false);
    let b1 = scan(&s, a1, true);
    proof {
        let t0 = g.skip(a0 as int);
        assert forall|i: int| 0 <= i < b0 - a0 implies !is_white_space(#[trigger] t0[i]) by {
            assert(t0[i] == g[a0 + i]);
        }
        lemma_fields_first(t0, b0 - a0);
        assert(t0.skip(b0 - a0) =~= g.skip(b0 as int));
        let t1 = g.skip(b0 as int);
        assert forall|i: int| 0 <= i < a1 - b0 implies is_white_space(#[trigger] t1[i]) by {
            assert(t1[i] == g[b0 + i]);
        }
        lemma_fields_skip_space(t1, a1 - b0);
        assert(t1.skip(a1 - b0) =~= g.skip(a1 as int));
    }
    if a1 == s.len() {
        proof {
            assert(g.skip(a1 as int) =~= Seq::<char>::empty());
            assert(fields(g).len() == 1);
        }
        return None;
    }
    proof {
        let t2 = g.skip(a1 as int);
        assert forall|i: int| 0 <= i < b1 - a1 implies !is_white_space(#[trigger] t2[i]) by {
            assert(t2[i] == g[a1 + i]);
        }
        lemma_fields_first(t2, b1 - a1);
        assert(t2.take(b1 - a1) =~= g.subrange(a1 as int, b1 as int));
        assert(fields(g)[1] == g.subrange(a1 as int, b1 as int));
    }
    parse_u64_range(&s, a1, b1)
}

} // verus!
