//! Decimal seconds (`12.345678`) read as whole milliseconds, the rest cut off.

use crate::chars::{find_char, first_index_of, lemma_first_index_of};
use vstd::prelude::*;

verus! {

pub open spec fn is_digit(c: char) -> bool {
    48 <= (c as u32) && (c as u32) <= 57
}

pub open spec fn digit_value(c: char) -> nat {
    ((c as u32) - 48) as nat
}

pub open spec fn all_digits(t: Seq<char>) -> bool {
    forall|i: int| 0 <= i < t.len() ==> is_digit(#[trigger] t[i])
}

/// The number that the decimal digits `t` write, most significant first.
pub open spec fn digits_value(t: Seq<char>) -> nat
    decreases t.len(),
{
    if t.len() == 0 {
        0
    } else {
        digits_value(t.drop_last()) * 10 + digit_value(t.last())
    }
}

pub open spec fn digit_at(t: Seq<char>, i: int) -> nat {
    if i < t.len() {
        digit_value(t[i])
    } else {
        0
    }
}

/// The first three digits after the point, as thousandths.
pub open spec fn frac_millis(t: Seq<char>) -> nat {
    100 * digit_at(t, 0) + 10 * digit_at(t, 1) + digit_at(t, 2)
}

/// Seconds written `[+]digits[.digits]` (at least one digit, either side of
/// the point may be empty) as whole milliseconds; `None` for any other text.
pub open spec fn seconds_to_millis(t: Seq<char>) -> Option<nat> {
    let body = if t.len() > 0 && t[0] == '+' {
        t.drop_first()
    } else {
        t
    };
    let dot = first_index_of(body, '.');
    let whole = body.subrange(0, dot as int);
    let frac = if dot < body.len() {
        body.subrange(dot as int + 1, body.len() as int)
    } else {
        Seq::<char>::empty()
    };
    if all_digits(whole) && all_digits(frac) && whole.len() + frac.len() > 0 {
        Some(digits_value(whole) * 1000 + frac_millis(frac))
    } else {
        None
    }
}

fn digit_of(c: char) -> (r: u64)
    requires
        is_digit(c),
    ensures
        r == digit_value(c),
        r < 10,
{
    ((c as u32) - 48) as u64
}

fn is_digit_char(c: char) -> (r: bool)
    ensures
        r == is_digit(c),
{
    48 <= (c as u32) && (c as u32) <= 57
}

fn all_digits_in(cs: &Vec<char>, from: usize, to: usize) -> (r: bool)
    requires
        from <= to <= cs@.len(),
    ensures
        r == all_digits(cs@.subrange(from as int, to as int)),
{
    let mut i: usize = from;
    while i < to
        invariant
            from <= i <= to <= cs@.len(),
            forall|j: int| from <= j < i ==> is_digit(#[trigger] cs@[j]),
        decreases to - i,
    {
        if !is_digit_char(cs[i]) {
            assert(!is_digit(cs@.subrange(from as int, to as int)[i - from]));
            return false;
        }
        i = i + 1;
    }
    assert forall|k: int| 0 <= k < to - from implies is_digit(
        #[trigger] cs@.subrange(from as int, to as int)[k],
    ) by {
        assert(is_digit(cs@[from + k]));
    }
    true
}

/// The value of the digits `cs[from..to]`, where it is at most `limit`.
fn digits_up_to(cs: &Vec<char>, from: usize, to: usize, limit: u64) -> (r: Option<u64>)
    requires
        from <= to <= cs@.len(),
        all_digits(cs@.subrange(from as int, to as int)),
    ensures
        digits_value(cs@.subrange(from as int, to as int)) <= limit ==> r == Some(
            digits_value(cs@.subrange(from as int, to as int)) as u64,
        ),
        digits_value(cs@.subrange(from as int, to as int)) > limit ==> r is None,
{
    let mut v: u64 = 0;
    let mut big = false;
    let mut i: usize = from;
    while i < to
        invariant
            from <= i <= to <= cs@.len(),
            all_digits(cs@.subrange(from as int, to as int)),
            big ==> digits_value(cs@.subrange(from as int, i as int)) > limit,
            !big ==> v == digits_value(cs@.subrange(from as int, i as int)) && v <= limit,
        decreases to - i,
    {
        assert(cs@.subrange(from as int, i + 1).drop_last() =~= cs@.subrange(from as int, i as int));
        assert(cs@.subrange(from as int, to as int)[i - from] == cs@[i as int]);
        let d = digit_of(cs[i]);
        let ghost prev = digits_value(cs@.subrange(from as int, i as int));
        assert(digits_value(cs@.subrange(from as int, i + 1)) == prev * 10 + d);
        if !big {
            if d > limit || v > (limit - d) / 10 {
                assert(v * 10 + d > limit) by (nonlinear_arith)
                    requires
                        d > limit || v > (limit - d) / 10,
                        d < 10,
                ;
                big = true;
            } else {
                assert(v * 10 + d <= limit) by (nonlinear_arith)
                    requires
                        v <= (limit - d) / 10,
                        d <= limit,
                ;
                v = v * 10 + d;
            }
        } else {
            assert(prev * 10 + d > limit) by (nonlinear_arith)
                requires
                    prev > limit,
            ;
        }
        i = i + 1;
    }
    if big {
        None
    } else {
        Some(v)
    }
}

/// The thousandths that the digits `cs[from..to]` give after a decimal point.
fn frac_of(cs: &Vec<char>, from: usize, to: usize) -> (r: u64)
    requires
        from <= to <= cs@.len(),
        all_digits(cs@.subrange(from as int, to as int)),
    ensures
        r == frac_millis(cs@.subrange(from as int, to as int)),
        r <= 999,
{
    let ghost frac = cs@.subrange(from as int, to as int);
    let mut f: u64 = 0;
    if to - from > 0 {
        assert(frac[0] == cs@[from as int]);
        f = f + 100 * digit_of(cs[from]);
    }
    if to - from > 1 {
        assert(frac[1] == cs@[from + 1]);
        f = f + 10 * digit_of(cs[from + 1]);
    }
    if to - from > 2 {
        assert(frac[2] == cs@[from + 2]);
        f = f + digit_of(cs[from + 2]);
    }
    f
}

/// Reads `cs[from..to]` as decimal seconds; `None` where the text is not such
/// a number or its milliseconds do not fit in `u64`.
pub fn parse_millis(cs: &Vec<char>, from: usize, to: usize) -> (r: Option<u64>)
    requires
        from <= to <= cs@.len(),
    ensures
        match seconds_to_millis(cs@.subrange(from as int, to as int)) {
            Some(m) => if m <= u64::MAX {
                r == Some(m as u64)
            } else {
                r is None
            },
            None => r is None,
        },
{
    let ghost t = cs@.subrange(from as int, to as int);
    let start = if from < to && cs[from] == '+' {
        from + 1
    } else {
        from
    };
    let ghost body = cs@.subrange(start as int, to as int);
    assert(body =~= (if t.len() > 0 && t[0] == '+' {
        t.drop_first()
    } else {
        t
    }));
    let dot = find_char(cs, start, to, '.');
    proof {
        lemma_first_index_of(body, '.');
    }
    let frac_from = if dot < to {
        dot + 1
    } else {
        to
    };
    assert(body.subrange(0, dot - start) =~= cs@.subrange(start as int, dot as int));
    assert(cs@.subrange(frac_from as int, to as int) =~= (if dot - start < body.len() {
        body.subrange(dot - start + 1, body.len() as int)
    } else {
        Seq::<char>::empty()
    }));
    if !all_digits_in(cs, start, dot) || !all_digits_in(cs, frac_from, to) || (dot - start) + (to
        - frac_from) == 0 {
        return None;
    }
    let f = frac_of(cs, frac_from, to);
    let limit = (u64::MAX - f) / 1000;
    match digits_up_to(cs, start, dot, limit) {
        Some(w) => {
            assert(w * 1000 + f <= u64::MAX) by (nonlinear_arith)
                requires
                    w <= (u64::MAX - f) / 1000,
                    f <= 999,
            ;
            Some(w * 1000 + f)
        },
        None => {
            let ghost w = digits_value(cs@.subrange(start as int, dot as int));
            assert(w * 1000 + f > u64::MAX) by (nonlinear_arith)
                requires
                    w > (u64::MAX - f) / 1000,
                    f <= 999,
            ;
            None
        },
    }
}

} // verus!
