use vstd::prelude::*;

verus! {

/// The characters denoted by a run of ASCII bytes.
pub open spec fn ascii_chars(t: Seq<u8>) -> Seq<char> {
    t.map_values(|b: u8| b as char)
}

/// Relies on String::from_utf8_lossy: on bytes below 128 it decodes
/// each byte to the character with the same code, one for one.
#[verifier::external_body]
pub fn ascii_to_string(t: &Vec<u8>, from: usize) -> (r: String)
    requires
        from <= t@.len(),
        forall|i: int| from <= i < t@.len() ==> #[trigger] t@[i] < 128,
    ensures
        r@ == ascii_chars(t@.subrange(from as int, t@.len() as int)),
{
    String::from_utf8_lossy(&t[from..]).into_owned()
}

/// The decimal rendering of a natural number, most significant digit
/// first, with no sign and no leading zeroes (a lone zero for zero).
pub open spec fn dec_chars(n: nat) -> Seq<char>
    decreases n,
{
    if n < 10 {
        seq![((n + 48) as u8) as char]
    } else {
        dec_chars(n / 10).push(((n % 10 + 48) as u8) as char)
    }
}

/// Renders a 64-bit natural number in decimal.
pub fn u64_to_string(n: u64) -> (r: String)
    ensures
        r@ == dec_chars(n as nat),
    decreases n,
{
    if n < 10 {
        let d: Vec<u8> = vec![48 + (n as u8)];
        let r = ascii_to_string(&d, 0);
        proof {
            assert(d@.subrange(0, 1) =~= d@);
            assert(ascii_chars(d@) =~= seq![((n + 48) as u8) as char]);
        }
        r
    } else {
        let q = u64_to_string(n / 10);
        let d: Vec<u8> = vec![48 + (n % 10) as u8];
        let tail = ascii_to_string(&d, 0);
        proof {
            assert(d@.subrange(0, 1) =~= d@);
            assert(ascii_chars(d@) =~= seq![((n % 10 + 48) as u8) as char]);
        }
        let r = q.concat(tail.as_str());
        proof {
            assert(dec_chars(n as nat) =~= dec_chars((n / 10) as nat).push(
                ((n % 10 + 48) as u8) as char,
            ));
            assert(dec_chars((n / 10) as nat) + seq![((n % 10 + 48) as u8) as char]
                =~= dec_chars((n / 10) as nat).push(((n % 10 + 48) as u8) as char));
        }
        r
    }
}

} // verus!
