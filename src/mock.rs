use vstd::prelude::*;
use rand::Rng;
use crate::key::{is_digit, valid_key};
use crate::records::{format_record, record_line};

verus! {

/// Relies on `rand::thread_rng` and `Rng::gen_range` over an inclusive range:
/// a number drawn between `lo` and `hi`, both included. The range is not
/// empty, so the call does not panic.
#[verifier::external_body]
fn random_between(lo: usize, hi: usize) -> (r: usize)
    requires
        lo <= hi,
    ensures
        lo <= r <= hi,
{
    rand::thread_rng().gen_range(lo..=hi)
}

/// Relies on `String::push`: appends the character at the end.
#[verifier::external_body]
fn push_char(s: &mut String, c: char)
    ensures
        final(s)@ == old(s)@.push(c),
{
    s.push(c);
}

/// The character of the decimal digit `d`.
fn digit_char(d: usize) -> (c: char)
    requires
        d <= 9,
    ensures
        is_digit(c),
{
    let b: u8 = 48u8 + d as u8;
    let c = b as char;
    assert(is_digit(c)) by {
        assert(48 <= b <= 57);
    }
    c
}

/// A random string of `length` decimal digits.
pub fn generate_random_number(length: usize) -> (r: String)
    ensures
        r@.len() == length,
        forall|i: int| 0 <= i < length ==> #[trigger] is_digit(r@[i]),
{
    let mut s = String::new();
    let mut i: usize = 0;
    while i < length
        invariant
            i <= length,
            s@.len() == i,
            forall|j: int| 0 <= j < i ==> #[trigger] is_digit(s@[j]),
        decreases length - i,
    {
        let d = random_between(0, 9);
        push_char(&mut s, digit_char(d));
        i = i + 1;
    }
    s
}

/// A random bootstrap line: a key of five to eleven digits and a value of
/// fourteen digits.
pub fn mock_record() -> (r: String)
    ensures
        exists|k: Seq<char>, v: Seq<char>|
            {
                &&& valid_key(k)
                &&& valid_key(v)
                &&& 5 <= k.len() <= 11
                &&& v.len() == 14
                &&& r@ == #[trigger] record_line(k, v)
            },
{
    let key_length = random_between(5, 11);
    let key = generate_random_number(key_length);
    let value = generate_random_number(14);
    let r = format_record(key.as_str(), value.as_str());
    assert(r@ == record_line(key@, value@));
    r
}

} // verus!
