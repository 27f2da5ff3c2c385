//! Horizon lists: parsing the comma-separated text form, and the labels
//! that name a horizon in the results.

use vstd::prelude::*;
use vstd::string::StringExecFns;
use crate::text::{
    chars_of, decimal, digit_value, digits_value, is_digit, push_decimal, trim, trim_range,
};

verus! {

/// The pieces of `s` between commas, where `cur` is the piece read so far.
pub open spec fn split_from(s: Seq<char>, cur: Seq<char>) -> Seq<Seq<char>>
    decreases s.len(),
{
    if s.len() == 0 {
        seq![cur]
    } else if s[0] == ',' {
        seq![cur] + split_from(s.drop_first(), Seq::empty())
    } else {
        split_from(s.drop_first(), cur.push(s[0]))
    }
}

/// The pieces of `s` between commas; one piece when `s` has no comma.
pub open spec fn split_commas(s: Seq<char>) -> Seq<Seq<char>> {
    split_from(s, Seq::empty())
}

/// `t` without the one leading `+` that an unsigned number may carry.
pub open spec fn unsigned_digits(t: Seq<char>) -> Seq<char> {
    if t.len() > 0 && t[0] == '+' {
        t.drop_first()
    } else {
        t
    }
}

/// Whether `t` is the text of a `u32`: an optional `+`, then one or more
/// decimal digits whose value fits.
pub open spec fn is_u32_text(t: Seq<char>) -> bool {
    let d = unsigned_digits(t);
    &&& d.len() > 0
    &&& forall|i: int| 0 <= i < d.len() ==> is_digit(#[trigger] d[i])
    &&& digits_value(d) <= u32::MAX
}

/// The value of a `u32` text.
pub open spec fn u32_value(t: Seq<char>) -> nat {
    digits_value(unsigned_digits(t))
}

/// Whether the `i`-th piece of the horizon list `s` is a valid horizon.
pub open spec fn horizon_token_ok(s: Seq<char>, i: int) -> bool {
    is_u32_text(trim(split_commas(s)[i]))
}

/// Whether every piece of the horizon list `s` is a valid horizon.
pub open spec fn horizons_valid(s: Seq<char>) -> bool {
    forall|i: int| 0 <= i < split_commas(s).len() ==> horizon_token_ok(s, i)
}

/// The horizons that a valid list `s` gives, in the order written.
pub open spec fn horizons_of(s: Seq<char>) -> Seq<u32> {
    split_commas(s).map_values(|t: Seq<char>| u32_value(trim(t)) as u32)
}

/// The text form of a horizon of `h` minutes, such as `5m`.
pub open spec fn label_of(h: u32) -> Seq<char> {
    decimal(h as nat).push('m')
}

/// Why a horizon list was refused.
#[derive(Debug, Clone, Copy, PartialEq, Eq)]
pub struct HorizonError {
    /// The position of the first piece that is not a valid horizon.
    pub position: usize,
}

proof fn lemma_digits_prefix_grows(d: Seq<char>, k: int)
    requires
        0 <= k <= d.len(),
        forall|i: int| 0 <= i < d.len() ==> is_digit(#[trigger] d[i]),
    ensures
        digits_value(d.take(k)) <= digits_value(d),
    decreases d.len(),
{
    if k < d.len() {
        assert(d.drop_last().take(k) =~= d.take(k));
        lemma_digits_prefix_grows(d.drop_last(), k);
    } else {
        assert(d.take(k) =~= d);
    }
}

/// Reads `t` as a `u32` the way `u32::from_str` does.
pub fn parse_u32(t: &Vec<char>) -> (r: Option<u32>)
    ensures
        r is Some <==> is_u32_text(t@),
        r is Some ==> r->0 == u32_value(t@),
{
    let start: usize = if t.len() > 0 && t[0] == '+' { 1 } else { 0 };
    let ghost d = unsigned_digits(t@);
    assert(d =~= t@.subrange(start as int, t@.len() as int));
    if start >= t.len() {
        return None;
    }
    let mut value: u64 = 0;
    let mut i: usize = start;
    while i < t.len()
        invariant
            start <= i <= t.len(),
            d == unsigned_digits(t@),
            d =~= t@.subrange(start as int, t@.len() as int),
            forall|j: int| 0 <= j < i - start ==> is_digit(#[trigger] d[j]),
            value == digits_value(d.take(i - start)),
            value <= u32::MAX,
        decreases t.len() - i,
    {
        let c = t[i];
        assert(d[i - start] == c);
        if !('0' <= c && c <= '9') {
            assert(!is_digit(d[i - start]));
            return None;
        }
        let digit: u64 = ((c as u32) - ('0' as u32)) as u64;
        let ghost k = i - start;
        assert(d.take(k + 1).drop_last() =~= d.take(k));
        value = value * 10 + digit;
        i = i + 1;
        if value > 4294967295 {
            proof {
                if forall|j: int| 0 <= j < d.len() ==> is_digit(#[trigger] d[j]) {
                    lemma_digits_prefix_grows(d, k + 1);
                }

            }
            return None;
        }
    }
    assert(d.take(d.len() as int) =~= d);
    Some(value as u32)
}

/// Parses a comma-separated list of horizons in minutes, such as `1, 5 ,15`.
/// Each piece is trimmed of white space and read as a `u32`; order and
/// repeats are kept. The first piece that is not a number is reported.
pub fn parse_horizons(horizons_str: &str) -> (r: Result<Vec<u32>, HorizonError>)
    ensures
        r is Ok <==> horizons_valid(horizons_str@),
        r is Ok ==> r->Ok_0@ == horizons_of(horizons_str@),
        r is Err ==> ({
            let p = r->Err_0.position as int;
            &&& 0 <= p < split_commas(horizons_str@).len()
            &&& !horizon_token_ok(horizons_str@, p)
            &&& forall|j: int| 0 <= j < p ==> horizon_token_ok(horizons_str@, j)
        }),
{
    let c = chars_of(horizons_str);
    let ghost s = horizons_str@;
    let n = c.len();
    let mut out: Vec<u32> = Vec::new();
    let ghost mut done: Seq<Seq<char>> = Seq::empty();
    let mut start: usize = 0;
    let mut i: usize = 0;
    assert(c@.subrange(0, n as int) =~= c@);
    assert(c@.subrange(0, 0) =~= Seq::<char>::empty());
    while i < n
        invariant
            n == c.len(),
            c@ == s,
            s == horizons_str@,
            0 <= start <= i <= n,
            split_commas(s) == done + split_from(c@.subrange(i as int, n as int), c@.subrange(start as int, i as int)),
            out.len() == done.len(),
            forall|j: int| 0 <= j < done.len() ==> is_u32_text(trim(#[trigger] done[j])),
            forall|j: int| 0 <= j < done.len() ==> out@[j] == u32_value(trim(#[trigger] done[j])),
        decreases n - i,
    {
        let ghost cur = c@.subrange(start as int, i as int);
        let ghost rest = c@.subrange(i as int, n as int);
        assert(rest.drop_first() =~= c@.subrange(i + 1, n as int));
        if c[i] == ',' {
            assert(split_commas(s) == done.push(cur) + split_from(rest.drop_first(), Seq::empty()));
            assert(split_commas(s)[done.len() as int] == cur);
            let token = trim_range(&c, start, i);
            match parse_u32(&token) {
                None => {
                    assert forall|j: int| 0 <= j < done.len() implies horizon_token_ok(s, j) by {
                        assert(split_commas(s)[j] == done[j]);
                    };
                    assert(!horizon_token_ok(s, done.len() as int));
                    return Err(HorizonError { position: out.len() });
                },
                Some(h) => {
                    out.push(h);
                    proof {
                        done = done.push(cur);
                    }
                    start = i + 1;
                    assert(c@.subrange(start as int, start as int) =~= Seq::<char>::empty());
                },
            }
        } else {
            assert(cur.push(c[i as int]) =~= c@.subrange(start as int, i + 1));
        }
        i = i + 1;
    }
    let ghost cur = c@.subrange(start as int, n as int);
    assert(split_commas(s) == done.push(cur));
    let token = trim_range(&c, start, n);
    match parse_u32(&token) {
        None => {
            assert forall|j: int| 0 <= j < done.len() implies horizon_token_ok(s, j) by {
                assert(split_commas(s)[j] == done[j]);
            };
            assert(split_commas(s)[done.len() as int] == cur);
            assert(!horizon_token_ok(s, done.len() as int));
            Err(HorizonError { position: out.len() })
        },
        Some(h) => {
            out.push(h);
            proof {
                done = done.push(cur);
            }
            assert forall|j: int| 0 <= j < done.len() implies horizon_token_ok(s, j) by {
                assert(split_commas(s)[j] == done[j]);
            };
            assert(out@ =~= horizons_of(s));
            Ok(out)
        },
    }
}

/// The label of a horizon of `h` minutes: its decimal digits and `m`.
pub fn horizon_label(h: u32) -> (r: String)
    ensures
        r@ == label_of(h),
{
    let mut r = String::new();
    push_decimal(&mut r, h);
    proof {
        reveal_strlit("m");
    }
    r.append("m");
    assert(r@ =~= label_of(h));
    r
}

} // verus!
