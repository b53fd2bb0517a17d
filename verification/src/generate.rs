//! The generator: draws random candidates over a fixed 64-character
//! alphabet, sized from the requested entropy, and returns the first one
//! that passes the checker under the same settings.

use vstd::prelude::*;
use vstd::string::StrSliceExecFns;
use vstd::string::StringExecFns;
use crate::check::CheckOutcome;
use crate::check::check_chars;
use crate::check::spec_check;
use crate::error::ErrorKind;
use crate::error::PWQError;
use crate::settings::pwquality_settings;
use crate::text::chars_of;

verus! {

/// Lowest entropy target the generator accepts; smaller requests are
/// raised to it.
pub const PWQ_MIN_ENTROPY_BITS: i32 = 56;

/// Highest entropy target the generator accepts; larger requests are
/// lowered to it.
pub const PWQ_MAX_ENTROPY_BITS: i32 = 256;

/// The attempt budget is the `retry` option, raised to this floor so that
/// an unlucky draw does not fail generation under a permissive policy.
pub const GENERATE_MIN_ATTEMPTS: i32 = 8;

/// The generation alphabet: 64 characters, six bits each, drawn from all
/// four character classes.
pub open spec fn alphabet() -> Seq<char> {
    "abcdefghijklmnopqrstuvwxyzABCDEFGHIJKLMNOPQRSTUVWXYZ0123456789._"@
}

/// The candidate length for an entropy target: the target is confined to
/// the supported range, then divided by the six bits an alphabet character
/// carries, rounding up.
pub open spec fn spec_pw_len(bits: i32) -> int {
    let b: int = if bits < PWQ_MIN_ENTROPY_BITS {
        PWQ_MIN_ENTROPY_BITS as int
    } else if bits > PWQ_MAX_ENTROPY_BITS {
        PWQ_MAX_ENTROPY_BITS as int
    } else {
        bits as int
    };
    (b + 5) / 6
}

/// The password spelled by a byte string: the low six bits of each byte
/// pick one alphabet character.
pub open spec fn password_chars(bytes: Seq<u8>) -> Seq<char> {
    Seq::new(bytes.len(), |i: int| alphabet()[(bytes[i] & 63) as int])
}

/// The candidate length for an entropy target.
pub fn pw_len_for_bits(bits: i32) -> (r: usize)
    ensures
        r as int == spec_pw_len(bits),
        1 <= r <= 43,
{
    let b: i32 = if bits < PWQ_MIN_ENTROPY_BITS {
        PWQ_MIN_ENTROPY_BITS
    } else if bits > PWQ_MAX_ENTROPY_BITS {
        PWQ_MAX_ENTROPY_BITS
    } else {
        bits
    };
    ((b + 5) / 6) as usize
}

/// Relies on `getrandom::fill`: on success the buffer holds `n` bytes from
/// the operating system's cryptographically strong random source. Nothing
/// is assumed about the bytes themselves.
#[verifier::external_body]
fn random_bytes(n: usize) -> (r: Result<Vec<u8>, ()>)
    ensures
        r matches Ok(b) ==> b@.len() == n,
{
    let mut buf = vec![0u8; n];
    match getrandom::fill(&mut buf) {
        Ok(()) => Ok(buf),
        Err(_) => Err(()),
    }
}

/// The password a byte string spells: one alphabet character per byte.
pub fn password_from_bytes(bytes: &Vec<u8>) -> (r: String)
    ensures
        r@ == password_chars(bytes@),
{
    let alpha = "abcdefghijklmnopqrstuvwxyzABCDEFGHIJKLMNOPQRSTUVWXYZ0123456789._";
    proof {
        reveal_strlit("abcdefghijklmnopqrstuvwxyzABCDEFGHIJKLMNOPQRSTUVWXYZ0123456789._");
    }
    let n = bytes.len();
    let mut pw = String::new();
    let mut i: usize = 0;
    while i < n
        invariant
            i <= n,
            n == bytes@.len(),
            alpha@ == alphabet(),
            alpha@.len() == 64,
            pw@.len() == i,
            forall|k: int| 0 <= k < i ==> pw@[k] == alphabet()[(bytes@[k] & 63) as int],
        decreases n - i,
    {
        let b = bytes[i];
        let idx = (b & 63) as usize;
        proof {
            assert(b & 63 < 64) by (bit_vector);
        }
        pw.append(alpha.substring_char(idx, idx + 1));
        i = i + 1;
    }
    proof {
        assert(pw@ =~= password_chars(bytes@));
    }
    pw
}

/// Draws random candidates of the length the entropy target asks for and
/// returns the first that passes the checker with no previous password and
/// no user name. Reports the random-source failure at once; reports an
/// exhausted attempt budget after `retry`, or at least its floor, draws.
pub fn generate_password(s: &pwquality_settings, bits: i32) -> (r: Result<String, PWQError>)
    ensures
        (match r {
            Result::Ok(pw) => {
                &&& spec_check(
                    s@,
                    pw@,
                    Option::None,
                    Option::None,
                    Option::None,
                ) matches CheckOutcome::Score(_)
                &&& pw@.len() == spec_pw_len(bits)
            },
            Result::Err(e) => {
                &&& (e.kind == ErrorKind::Rng || e.kind == ErrorKind::GenerationFailed)
                &&& e.aux is None
            },
        }),
{
    let len = pw_len_for_bits(bits);
    let attempts: i32 = if s.retry_times > GENERATE_MIN_ATTEMPTS {
        s.retry_times
    } else {
        GENERATE_MIN_ATTEMPTS
    };
    let mut t: i32 = 0;
    while t < attempts
        invariant
            t <= attempts,
            len as int == spec_pw_len(bits),
        decreases attempts - t,
    {
        match random_bytes(len) {
            Result::Err(()) => {
                return Err(PWQError::new(ErrorKind::Rng));
            },
            Result::Ok(bytes) => {
                let pw = password_from_bytes(&bytes);
                let pw_chars = chars_of(pw.as_str());
                match check_chars(s, &pw_chars, Option::None, Option::None, Option::None) {
                    Result::Ok(_) => {
                        return Ok(pw);
                    },
                    Result::Err(_) => {},
                }
            },
        }
        t = t + 1;
    }
    Err(PWQError::new(ErrorKind::GenerationFailed))
}

} // verus!
