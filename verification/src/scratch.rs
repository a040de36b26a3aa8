//! Names for private scratch directories: a caller's prefix and 128 bits
//! from the operating system's random source, so that no other local user
//! can predict the path.
use vstd::prelude::*;

use crate::text::{has_prefix, push_str, string_of};

verus! {

/// The error `getrandom` reports.
#[verifier::external_type_specification]
#[verifier::external_body]
pub struct ExRandomError(getrandom::Error);

/// `getrandom::fill`: fills `dest` from the system's random source, or
/// reports why it could not. What the bytes are is chance, so nothing is
/// stated of them; on error the crate makes no promise about them either.
#[verifier::external_body]
fn fill_random(dest: &mut [u8; 16]) -> (r: Result<(), getrandom::Error>) {
    getrandom::fill(dest)
}

/// The error's `Display` text, which the operating system words; nothing
/// is stated of it.
#[verifier::external_body]
fn random_error_text(error: &getrandom::Error) -> (text: String) {
    format!("{error}")
}

/// A lowercase hexadecimal digit.
pub open spec fn is_hex_digit(c: char) -> bool {
    ('0' <= c && c <= '9') || ('a' <= c && c <= 'f')
}

pub open spec fn hex_nibble(n: u8) -> char {
    if n < 10 {
        ((48 + n) as u8) as char
    } else {
        ((87 + n) as u8) as char
    }
}

/// Each byte as two lowercase hexadecimal digits, in order.
pub open spec fn hex_bytes(bytes: Seq<u8>) -> Seq<char>
    decreases bytes.len(),
{
    if bytes.len() == 0 {
        Seq::empty()
    } else {
        hex_bytes(bytes.drop_last()) + seq![hex_nibble(bytes.last() / 16), hex_nibble(bytes.last() % 16)]
    }
}

fn push_hex_byte(out: &mut Vec<char>, b: u8)
    ensures
        final(out)@ == old(out)@ + seq![hex_nibble(b / 16), hex_nibble(b % 16)],
{
    let hi = b / 16;
    let lo = b % 16;
    let h = if hi < 10 {
        (48 + hi) as char
    } else {
        (87 + hi) as char
    };
    let l = if lo < 10 {
        (48 + lo) as char
    } else {
        (87 + lo) as char
    };
    out.push(h);
    out.push(l);
}

/// `prefix`, a dash, and the bytes in hexadecimal.
pub fn scratch_name(prefix: &str, random: &[u8; 16]) -> (name: String)
    ensures
        name@ == prefix@ + seq!['-'] + hex_bytes(random@),
{
    let mut out: Vec<char> = Vec::new();
    push_str(&mut out, prefix);
    out.push('-');
    let ghost start = out@;
    let mut i: usize = 0;
    while i < 16
        invariant
            i <= 16,
            random@.len() == 16,
            out@ == start + hex_bytes(random@.take(i as int)),
        decreases 16 - i,
    {
        assert(random@.take(i + 1).drop_last() =~= random@.take(i as int));
        assert(random@.take(i + 1).last() == random@[i as int]);
        push_hex_byte(&mut out, random[i]);
        i = i + 1;
    }
    assert(random@.take(16) =~= random@);
    string_of(out.as_slice())
}

/// A fresh, unpredictable name for a scratch directory: `prefix`, a dash
/// and 32 hexadecimal digits drawn from the operating system's random
/// source; or why no randomness was to be had.
pub fn scratch_dir_name(prefix: &str) -> (r: Result<String, String>)
    ensures
        r matches Ok(name) ==> exists|bytes: Seq<u8>| bytes.len() == 16 && name@ == prefix@ + seq!['-'] + hex_bytes(bytes),
        r matches Err(e) ==> has_prefix(e@, "operating system randomness is unavailable: "@),
{
    let mut random = [0u8; 16];
    match fill_random(&mut random) {
        Ok(()) => {
            let name = scratch_name(prefix, &random);
            assert(random@.len() == 16);
            Ok(name)
        },
        Err(error) => {
            let mut m: Vec<char> = Vec::new();
            push_str(&mut m, "operating system randomness is unavailable: ");
            let ghost lead = m@;
            push_str(&mut m, random_error_text(&error).as_str());
            assert(m@.take(lead.len() as int) =~= lead);
            Err(string_of(m.as_slice()))
        },
    }
}

} // verus!
