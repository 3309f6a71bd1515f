use vstd::prelude::*;

verus! {

/// True for the ASCII decimal digits `0` through `9`.
pub open spec fn is_digit(b: u8) -> bool {
    48 <= b <= 57
}

/// All bytes of `t` are ASCII decimal digits.
pub open spec fn all_digits(t: Seq<u8>) -> bool {
    forall|i: int| 0 <= i < t.len() ==> is_digit(#[trigger] t[i])
}

/// The value of a run of ASCII decimal digits, most significant first.
pub open spec fn dec_val(t: Seq<u8>) -> nat
    decreases t.len(),
{
    if t.len() == 0 {
        0
    } else {
        (dec_val(t.drop_last()) * 10 + (t.last() - 48)) as nat
    }
}

/// Appending one digit multiplies the value by ten and adds the digit.
pub proof fn lemma_dec_val_step(t: Seq<u8>, i: int)
    requires
        0 <= i < t.len(),
        is_digit(t[i]),
    ensures
        dec_val(t.subrange(0, i + 1)) == dec_val(t.subrange(0, i)) * 10 + (t[i] - 48),
{
    assert(t.subrange(0, i + 1).drop_last() =~= t.subrange(0, i));
    assert(t.subrange(0, i + 1).last() == t[i]);
}

/// A prefix of a digit run never has a larger value than the whole run.
pub proof fn lemma_dec_val_prefix_le(t: Seq<u8>, k: int)
    requires
        0 <= k <= t.len(),
        all_digits(t),
    ensures
        dec_val(t.subrange(0, k)) <= dec_val(t),
    decreases t.len(),
{
    if k == t.len() {
        assert(t.subrange(0, k) =~= t);
    } else {
        assert(t.drop_last() =~= t.subrange(0, t.len() - 1));
        assert(all_digits(t.subrange(0, t.len() - 1)));
        lemma_dec_val_prefix_le(t.subrange(0, t.len() - 1), k);
        assert(t.subrange(0, t.len() - 1).subrange(0, k) =~= t.subrange(0, k));
        assert(t.last() - 48 >= 0);
    }
}

/// A numeric literal: optional leading minus sign, then one or more digits.
pub open spec fn is_number_token(t: Seq<u8>) -> bool {
    if t.len() > 0 && t[0] == 45 {
        t.len() > 1 && all_digits(t.subrange(1, t.len() as int))
    } else {
        t.len() > 0 && all_digits(t)
    }
}

/// The signed value denoted by a numeric literal.
pub open spec fn number_val(t: Seq<u8>) -> int {
    if t.len() > 0 && t[0] == 45 {
        -(dec_val(t.subrange(1, t.len() as int)) as int)
    } else {
        dec_val(t) as int
    }
}

/// Reads the digit run `t[from..]` as an eight-bit register code.
/// Returns `None` exactly when the value exceeds 255.
pub fn parse_u8_digits(t: &Vec<u8>, from: usize) -> (r: Option<u8>)
    requires
        from < t@.len(),
        all_digits(t@.subrange(from as int, t@.len() as int)),
    ensures
        match r {
            Some(c) => dec_val(t@.subrange(from as int, t@.len() as int)) == c,
            None => dec_val(t@.subrange(from as int, t@.len() as int)) > 255,
        },
{
    let ghost whole: Seq<u8> = t@.subrange(from as int, t@.len() as int);
    let mut acc: u16 = 0;
    let mut i: usize = from;
    while i < t.len()
        invariant
            from <= i <= t@.len(),
            whole == t@.subrange(from as int, t@.len() as int),
            all_digits(whole),
            acc <= 255,
            acc == dec_val(t@.subrange(from as int, i as int)),
        decreases t@.len() - i,
    {
        let d: u8 = t[i];
        proof {
            assert(whole[i - from] == t@[i as int]);
            assert(whole.subrange(0, i - from + 1).drop_last() =~= whole.subrange(
                0,
                i - from,
            ));
            assert(whole.subrange(0, i - from) =~= t@.subrange(from as int, i as int));
            assert(whole.subrange(0, i - from + 1) =~= t@.subrange(from as int, i + 1));
            lemma_dec_val_step(whole, i - from);
        }
        let v: u16 = acc * 10 + (d - 48) as u16;
        if v > 255 {
            proof {
                lemma_dec_val_prefix_le(whole, i - from + 1);
            }
            return None;
        }
        acc = v;
        i = i + 1;
    }
    proof {
        assert(t@.subrange(from as int, i as int) =~= whole);
    }
    Some(acc as u8)
}

/// Reads a whole numeric literal as a signed 64-bit integer.
/// Returns `None` exactly when the denoted value does not fit.
pub fn parse_i64_token(t: &Vec<u8>) -> (r: Option<i64>)
    requires
        is_number_token(t@),
    ensures
        match r {
            Some(n) => n == number_val(t@),
            None => !(i64::MIN <= number_val(t@) <= i64::MAX),
        },
        (r is Some) == (i64::MIN <= number_val(t@) <= i64::MAX),
{
    let neg: bool = t[0] == 45;
    let from: usize = if neg {
        1
    } else {
        0
    };
    let limit: u64 = if neg {
        9223372036854775808
    } else {
        9223372036854775807
    };
    let ghost whole: Seq<u8> = t@.subrange(from as int, t@.len() as int);
    proof {
        if !neg {
            assert(whole =~= t@);
        }
    }
    let mut acc: u64 = 0;
    let mut i: usize = from;
    while i < t.len()
        invariant
            from <= i <= t@.len(),
            from == 1 <==> neg,
            from <= 1,
            neg <==> (t@.len() > 0 && t@[0] == 45),
            is_number_token(t@),
            whole == t@.subrange(from as int, t@.len() as int),
            all_digits(whole),
            limit == if neg {
                9223372036854775808u64
            } else {
                9223372036854775807u64
            },
            acc <= limit,
            acc == dec_val(t@.subrange(from as int, i as int)),
            number_val(t@) == if neg {
                -(dec_val(whole) as int)
            } else {
                dec_val(whole) as int
            },
        decreases t@.len() - i,
    {
        let d: u8 = t[i];
        proof {
            assert(whole[i - from] == t@[i as int]);
            assert(whole.subrange(0, i - from) =~= t@.subrange(from as int, i as int));
            assert(whole.subrange(0, i - from + 1) =~= t@.subrange(from as int, i + 1));
            lemma_dec_val_step(whole, i - from);
        }
        let dv: u64 = (d - 48) as u64;
        if acc > (limit - dv) / 10 {
            proof {
                assert(acc * 10 + dv > limit) by (nonlinear_arith)
                    requires
                        acc > (limit - dv) / 10,
                        dv <= limit,
                ;
                lemma_dec_val_prefix_le(whole, i - from + 1);
                assert(dec_val(whole) > limit);
            }
            return None;
        }
        proof {
            assert(acc * 10 + dv <= limit) by (nonlinear_arith)
                requires
                    acc <= (limit - dv) / 10,
                    dv <= limit,
            ;
        }
        acc = acc * 10 + dv;
        i = i + 1;
    }
    proof {
        assert(t@.subrange(from as int, i as int) =~= whole);
    }
    if neg {
        if acc == 9223372036854775808 {
            Some(i64::MIN)
        } else {
            Some(-(acc as i64))
        }
    } else {
        Some(acc as i64)
    }
}

} // verus!
