use vstd::prelude::*;

verus! {

/// Whether form-urlencoding leaves a byte as it stands: ASCII
/// alphanumerics and `*`, `-`, `.`, `_`.
pub open spec fn spec_unreserved(b: u8) -> bool {
    (48 <= b <= 57) || (65 <= b <= 90) || (97 <= b <= 122) || b == 42 || b == 45 || b == 46 || b
        == 95
}

/// The uppercase hex digit for a value below 16.
pub open spec fn spec_hex_digit(n: int) -> u8
    recommends
        0 <= n < 16,
{
    if n < 10 {
        (48 + n) as u8
    } else {
        (55 + n) as u8
    }
}

/// How one byte is written in a form-urlencoded query: unreserved
/// bytes stand as they are, a space becomes `+`, anything else a
/// percent escape with two uppercase hex digits.
pub open spec fn spec_enc_byte(b: u8) -> Seq<u8> {
    if spec_unreserved(b) {
        seq![b]
    } else if b == 32 {
        seq![43u8]
    } else {
        seq![37u8, spec_hex_digit(b as int / 16), spec_hex_digit(b as int % 16)]
    }
}

/// The form-urlencoded rendering of a byte run.
pub open spec fn spec_urlencode(s: Seq<u8>) -> Seq<u8>
    decreases s.len(),
{
    if s.len() == 0 {
        Seq::empty()
    } else {
        spec_urlencode(s.drop_last()) + spec_enc_byte(s.last())
    }
}

fn hex_digit(n: u8) -> (r: u8)
    requires
        n < 16,
    ensures
        r == spec_hex_digit(n as int),
{
    if n < 10 {
        48 + n
    } else {
        55 + n
    }
}

fn unreserved(b: u8) -> (r: bool)
    ensures
        r == spec_unreserved(b),
{
    (48 <= b && b <= 57) || (65 <= b && b <= 90) || (97 <= b && b <= 122) || b == 42 || b == 45
        || b == 46 || b == 95
}

/// Appends the form-urlencoded rendering of `s` to `out`.
pub fn urlencode_into(out: &mut Vec<u8>, s: &[u8])
    ensures
        final(out)@ == old(out)@ + spec_urlencode(s@),
{
    let mut k: usize = 0;
    while k < s.len()
        invariant
            0 <= k <= s@.len(),
            out@ == old(out)@ + spec_urlencode(s@.take(k as int)),
        decreases s@.len() - k,
    {
        let b = s[k];
        if unreserved(b) {
            out.push(b);
        } else if b == 32 {
            out.push(43);
        } else {
            out.push(37);
            out.push(hex_digit(b / 16));
            out.push(hex_digit(b % 16));
        }
        k = k + 1;
        proof {
            assert(s@.take(k as int).drop_last() =~= s@.take(k - 1));
            assert(s@.take(k as int).last() == s@[k - 1]);
            assert(out@ =~= old(out)@ + spec_urlencode(s@.take(k as int)));
        }
    }
    proof {
        assert(s@.take(s@.len() as int) =~= s@);
    }
}

/// The decimal rendering of a non-negative number, without sign or
/// padding.
pub open spec fn spec_dec_str(n: int) -> Seq<u8>
    recommends
        n >= 0,
    decreases n,
{
    if n <= 9 {
        seq![(48 + n) as u8]
    } else {
        spec_dec_str(n / 10) + seq![(48 + n % 10) as u8]
    }
}

/// Appends the decimal rendering of `n` to `out`.
pub fn push_dec_u64(out: &mut Vec<u8>, n: u64)
    ensures
        final(out)@ == old(out)@ + spec_dec_str(n as int),
    decreases n,
{
    if n <= 9 {
        out.push(48 + n as u8);
        proof {
            assert(out@ =~= old(out)@ + spec_dec_str(n as int));
        }
    } else {
        push_dec_u64(out, n / 10);
        out.push(48 + (n % 10) as u8);
        proof {
            assert(out@ =~= old(out)@ + spec_dec_str(n as int));
        }
    }
}

} // verus!
