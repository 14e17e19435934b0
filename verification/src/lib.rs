//! turb1600: a fixed-output sponge hash.
//!
//! A 1600-bit state (25 lanes of 64 bits) absorbs the padded message
//! through an 1088-bit rate, is stirred by a round-indexed permutation,
//! and is squeezed into a 128-byte digest.  The whole pipeline is
//! verified: `turb1600_hash` returns exactly `model::spec_hash` of its
//! input, and `hash_hex` renders that digest in lowercase hexadecimal.

use vstd::prelude::*;
use vstd::string::StringExecFns;
use vstd::string::StringSliceAdditionalSpecFns;

pub mod engine;
pub mod model;

pub use crate::engine::turb1600_hash;
use crate::model::spec_hash;

verus! {

/// The lowercase hexadecimal digit for a nibble.
pub open spec fn spec_hex_digit(n: u8) -> char
    recommends
        n < 16,
{
    if n == 0 { '0' } else if n == 1 { '1' } else if n == 2 { '2' } else if n == 3 { '3' }
    else if n == 4 { '4' } else if n == 5 { '5' } else if n == 6 { '6' } else if n == 7 { '7' }
    else if n == 8 { '8' } else if n == 9 { '9' } else if n == 10 { 'a' } else if n == 11 { 'b' }
    else if n == 12 { 'c' } else if n == 13 { 'd' } else if n == 14 { 'e' } else { 'f' }
}

/// Lowercase hexadecimal rendering of a byte sequence: two digits per
/// byte, high nibble first.
pub open spec fn spec_hex(bytes: Seq<u8>) -> Seq<char> {
    Seq::new(
        2 * bytes.len(),
        |i: int| if i % 2 == 0 {
            spec_hex_digit(bytes[i / 2] >> 4u8)
        } else {
            spec_hex_digit(bytes[i / 2] & 0x0fu8)
        },
    )
}

/// The one-character string for a nibble's lowercase hex digit.
fn hex_digit_str(n: u8) -> (s: &'static str)
    requires
        n < 16,
    ensures
        s@ == seq![spec_hex_digit(n)],
{
    proof {
        reveal_strlit("0"); reveal_strlit("1"); reveal_strlit("2"); reveal_strlit("3");
        reveal_strlit("4"); reveal_strlit("5"); reveal_strlit("6"); reveal_strlit("7");
        reveal_strlit("8"); reveal_strlit("9"); reveal_strlit("a"); reveal_strlit("b");
        reveal_strlit("c"); reveal_strlit("d"); reveal_strlit("e"); reveal_strlit("f");
    }
    let s: &'static str = if n == 0 { "0" } else if n == 1 { "1" } else if n == 2 { "2" }
    else if n == 3 { "3" } else if n == 4 { "4" } else if n == 5 { "5" } else if n == 6 { "6" }
    else if n == 7 { "7" } else if n == 8 { "8" } else if n == 9 { "9" } else if n == 10 { "a" }
    else if n == 11 { "b" } else if n == 12 { "c" } else if n == 13 { "d" } else if n == 14 { "e" }
    else { "f" };
    proof {
        assert(s@ =~= seq![spec_hex_digit(n)]);
    }
    s
}

/// Hash a string and render the 128-byte digest as 256 lowercase
/// hexadecimal characters.
pub fn hash_hex(data: &str) -> (hex: String)
    requires
        data.spec_bytes().len() + 137 <= usize::MAX,
    ensures
        hex@ == spec_hex(spec_hash(data.spec_bytes())),
        hex@.len() == 256,
{
    let bytes = data.as_bytes();
    let digest = turb1600_hash(bytes);
    let mut hex_out = String::new();
    proof {
        assert(hex_out@ =~= spec_hex(digest@.take(0)));
    }

    for i in 0..128usize
        invariant
            digest@.len() == 128,
            digest@ == spec_hash(data.spec_bytes()),
            hex_out@ == spec_hex(digest@.take(i as int)),
    {
        let b = digest[i];
        proof {
            assert(b >> 4u8 < 16 && (b & 0x0fu8) < 16) by (bit_vector);
        }
        let hi = hex_digit_str(b >> 4);
        let lo = hex_digit_str(b & 0x0f);
        hex_out.append(hi);
        hex_out.append(lo);
        proof {
            assert(hex_out@ =~= spec_hex(digest@.take(i + 1)));
        }
    }
    proof {
        assert(digest@.take(128) =~= digest@);
    }
    hex_out
}

} // verus!
