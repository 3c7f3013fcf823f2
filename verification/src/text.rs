//! Small verified text helpers: building ASCII strings and rendering
//! numbers in decimal.

use vstd::prelude::*;
use vstd::string::StringExecFns;

verus! {

/// Relies on String::from_utf8: bytes below 128 are valid UTF-8 and decode
/// to one character per byte, with equal codes.
#[verifier::external_body]
pub(crate) fn string_from_ascii(bytes: &Vec<u8>) -> (r: String)
    requires
        forall|i: int| 0 <= i < bytes@.len() ==> bytes@[i] < 128,
    ensures
        r@.len() == bytes@.len(),
        forall|i: int| 0 <= i < bytes@.len() ==> (#[trigger] r@[i]) as int == bytes@[i] as int,
{
    match String::from_utf8(bytes.clone()) {
        Ok(s) => s,
        Err(_) => String::new(),
    }
}

/// The decimal digits of `n`, most significant first; empty for zero.
pub open spec fn digits_of(n: nat) -> Seq<char>
    decreases n,
{
    if n == 0 {
        Seq::<char>::empty()
    } else {
        digits_of(n / 10).push(((48 + (n % 10)) as u8) as char)
    }
}

/// The decimal rendering of `n`: "0" for zero, otherwise its digits with
/// no leading zero.
pub open spec fn spec_decimal(n: nat) -> Seq<char> {
    if n == 0 {
        seq!['0']
    } else {
        digits_of(n)
    }
}

/// The reversed character reading of a byte sequence.
pub open spec fn rev_chars(b: Seq<u8>) -> Seq<char> {
    Seq::new(b.len(), |i: int| (b[b.len() - 1 - i] as u8) as char)
}

/// Render `n` in decimal.
pub fn u64_to_string(n: u64) -> (r: String)
    ensures
        r@ == spec_decimal(n as nat),
{
    if n == 0 {
        let mut bytes: Vec<u8> = Vec::new();
        bytes.push(48);
        let s = string_from_ascii(&bytes);
        proof {
            assert(s@ =~= seq!['0']);
        }
        return s;
    }
    let mut rev: Vec<u8> = Vec::new();
    let mut m: u64 = n;
    while m > 0
        invariant
            digits_of(n as nat) =~= digits_of(m as nat) + rev_chars(rev@),
            forall|i: int| 0 <= i < rev@.len() ==> 48 <= #[trigger] rev@[i] <= 57,
        decreases m,
    {
        let d: u8 = (m % 10) as u8;
        let ghost old_rev = rev@;
        let ghost old_m = m as nat;
        rev.push(48 + d);
        m = m / 10;
        proof {
            assert(rev_chars(rev@) =~= seq![((48 + (old_m % 10)) as u8) as char] + rev_chars(
                old_rev,
            ));
            assert(digits_of(old_m) =~= digits_of(old_m / 10).push(
                ((48 + (old_m % 10)) as u8) as char,
            ));
            assert(digits_of(old_m / 10).push(((48 + (old_m % 10)) as u8) as char) + rev_chars(
                old_rev,
            ) =~= digits_of(old_m / 10) + (seq![((48 + (old_m % 10)) as u8) as char] + rev_chars(
                old_rev,
            )));
            assert(digits_of(n as nat) =~= digits_of(m as nat) + rev_chars(rev@));
        }
    }
    let mut bytes: Vec<u8> = Vec::new();
    let count = rev.len();
    let mut i: usize = 0;
    while i < count
        invariant
            count == rev@.len(),
            i <= count,
            bytes@.len() == i,
            forall|k: int| 0 <= k < rev@.len() ==> 48 <= #[trigger] rev@[k] <= 57,
            forall|k: int| 0 <= k < i ==> #[trigger] bytes@[k] == rev@[rev@.len() - 1 - k],
        decreases count - i,
    {
        bytes.push(rev[count - 1 - i]);
        i += 1;
    }
    let s = string_from_ascii(&bytes);
    proof {
        assert(s@ =~= rev_chars(rev@));
        assert(digits_of(n as nat) =~= digits_of(0nat) + rev_chars(rev@));
        assert(s@ =~= digits_of(n as nat));
    }
    s
}

/// The decimal rendering of a signed value: a minus sign for negatives.
pub open spec fn spec_decimal_i64(n: i64) -> Seq<char> {
    if n >= 0 {
        spec_decimal(n as nat)
    } else {
        seq!['-'] + spec_decimal((-(n as int)) as nat)
    }
}

/// Render a signed value in decimal.
pub fn i64_to_string(n: i64) -> (r: String)
    ensures
        r@ == spec_decimal_i64(n),
{
    if n >= 0 {
        u64_to_string(n as u64)
    } else {
        let magnitude: u64 = if n == i64::MIN {
            9223372036854775808u64
        } else {
            (-n) as u64
        };
        let mut sign: Vec<u8> = Vec::new();
        sign.push(45); // '-'
        let sign_str = string_from_ascii(&sign);
        proof {
            assert(sign_str@ =~= seq!['-']);
        }
        let mut out = sign_str;
        let digits = u64_to_string(magnitude);
        out.append(digits.as_str());
        proof {
            assert(out@ =~= seq!['-'] + spec_decimal((-(n as int)) as nat));
        }
        out
    }
}

} // verus!
