//! The device's login challenge and the response that answers it.
//!
//! A challenge has the form `2$<rounds>$<salt>$<rounds>$<salt>`: the version, then
//! twice a number of PBKDF2 rounds and a salt of 16 bytes in hexadecimal digits.
//! The password is hashed with the first pair, the hash again with the second,
//! and the response is the second salt and that second hash.

use crate::hexadecimal::{bytes_of_hex, decode_hex, encode_hex, hex_of_bytes, spells_bytes};
use crate::text::{parse_u32_in, spec_parse_u32, spec_split, split, to_chars};
use vstd::prelude::*;
use vstd::string::{StrSliceExecFns, StringExecFns, StringSliceAdditionalSpecFns};

verus! {

/// The rounds and the salt of one PBKDF2 hash.
#[derive(Debug, Default, PartialEq, Eq, Clone, Copy)]
pub struct Pbkdf2Params {
    pub iterations: u32,
    pub salt: [u8; 16],
}

/// A login challenge: the parameters that never change for a password, and those
/// that the device draws anew for each login.
#[derive(Debug, PartialEq, Eq, Clone, Copy)]
pub struct Challenge {
    pub statick: Pbkdf2Params,
    pub dynamic: Pbkdf2Params,
}

/// The answer to a challenge.
#[derive(Debug, PartialEq, Eq, Clone, Copy)]
pub struct Response {
    pub salt: [u8; 16],
    pub hash: [u8; 32],
}

/// Why a string is no challenge.
#[derive(Debug, PartialEq, Eq, Structural, Clone, Copy, Hash)]
pub enum ChallengeParseError {
    /// The string does not have five fields between `$` signs.
    Format,
    /// The version is not `2`.
    Version,
    /// A salt is not 16 bytes in hexadecimal digits.
    Salt,
    /// A number of rounds is no `u32`.
    Iterations,
}

/// The 32 bytes that PBKDF2 with HMAC-SHA256 derives from a password, a salt and
/// a number of rounds.
pub uninterp spec fn pbkdf2_hmac_sha256(password: Seq<u8>, salt: Seq<u8>, rounds: u32) -> Seq<u8>;

/// Calls `pbkdf2::pbkdf2_hmac` with `sha2::Sha256` on a buffer of 32 bytes. What
/// it writes there is a function of its three arguments alone; the contract
/// gives it its name and claims no more.
#[verifier::external_body]
fn pbkdf2_hmac_sha256_32(password: &[u8], salt: &[u8; 16], rounds: u32) -> (hash: [u8; 32])
    ensures
        hash@ == pbkdf2_hmac_sha256(password@, salt@, rounds),
{
    let mut hash = [0u8; 32];
    pbkdf2::pbkdf2_hmac::<sha2::Sha256>(password, salt, rounds, &mut hash);
    hash
}

/// The five fields of a challenge, read one by one: the first fault decides.
pub open spec fn spec_challenge(s: Seq<char>) -> Result<Challenge, ChallengeParseError> {
    let fields = spec_split(s, '$');
    if fields.len() != 5 {
        Err(ChallengeParseError::Format)
    } else if fields[0] != seq!['2'] {
        Err(ChallengeParseError::Version)
    } else if !spells_bytes(fields[2], 16) || !spells_bytes(fields[4], 16) {
        Err(ChallengeParseError::Salt)
    } else if spec_parse_u32(fields[1]) is None || spec_parse_u32(fields[3]) is None {
        Err(ChallengeParseError::Iterations)
    } else {
        Ok(
            Challenge {
                statick: Pbkdf2Params {
                    iterations: spec_parse_u32(fields[1])->Some_0,
                    salt: salt_of(bytes_of_hex(fields[2])),
                },
                dynamic: Pbkdf2Params {
                    iterations: spec_parse_u32(fields[3])->Some_0,
                    salt: salt_of(bytes_of_hex(fields[4])),
                },
            },
        )
    }
}

/// The salt that holds the 16 bytes `bytes`.
pub open spec fn salt_of(bytes: Seq<u8>) -> [u8; 16] {
    choose|salt: [u8; 16]| salt@ == bytes
}

/// The response that a password earns for a challenge.
pub open spec fn spec_response(challenge: Challenge, password: Seq<u8>) -> (Seq<u8>, Seq<u8>) {
    (
        challenge.dynamic.salt@,
        pbkdf2_hmac_sha256(
            pbkdf2_hmac_sha256(password, challenge.statick.salt@, challenge.statick.iterations),
            challenge.dynamic.salt@,
            challenge.dynamic.iterations,
        ),
    )
}

/// Two arrays with the same bytes are the same array.
proof fn lemma_salt_of(salt: [u8; 16])
    ensures
        salt_of(salt@) == salt,
{
    let chosen = salt_of(salt@);
    assert(chosen@ == salt@);
    vstd::array::axiom_array_ext_equal(chosen, salt);
    assert(chosen =~= salt);
}

impl Pbkdf2Params {
    /// The PBKDF2-HMAC-SHA256 hash of `password` with these parameters.
    pub fn hash(&self, password: &[u8]) -> (hash: [u8; 32])
        ensures
            hash@ == pbkdf2_hmac_sha256(password@, self.salt@, self.iterations),
    {
        pbkdf2_hmac_sha256_32(password, &self.salt, self.iterations)
    }
}

impl Challenge {
    /// Reads a challenge of the form `2$<rounds>$<salt>$<rounds>$<salt>`.
    ///
    /// The faults are looked for in this order: the number of fields, the
    /// version, the two salts, the two numbers of rounds.
    pub fn from_str(s: &str) -> (challenge: Result<Challenge, ChallengeParseError>)
        ensures
            challenge == spec_challenge(s@),
    {
        let chars = to_chars(s);
        let fields = split(chars.as_slice(), '$');
        if fields.len() != 5 {
            return Err(ChallengeParseError::Format);
        }
        let (version_from, version_to) = fields[0];
        let ghost version = spec_split(s@, '$')[0];
        assert(version == chars@.subrange(version_from as int, version_to as int));
        if version_to - version_from != 1 || chars[version_from] != '2' {
            assert(version != seq!['2']) by {
                if version.len() == 1 {
                    assert(version[0] == chars@[version_from as int]);
                }
            }
            return Err(ChallengeParseError::Version);
        }
        assert(version =~= seq!['2']) by {
            assert(version[0] == chars@[version_from as int]);
        }
        let static_salt = match decode_hex::<16>(s.substring_char(fields[2].0, fields[2].1)) {
            Ok(salt) => salt,
            Err(_) => {
                return Err(ChallengeParseError::Salt);
            },
        };
        let dynamic_salt = match decode_hex::<16>(s.substring_char(fields[4].0, fields[4].1)) {
            Ok(salt) => salt,
            Err(_) => {
                return Err(ChallengeParseError::Salt);
            },
        };
        let static_iterations = match parse_u32_in(chars.as_slice(), fields[1].0, fields[1].1) {
            Some(iterations) => iterations,
            None => {
                return Err(ChallengeParseError::Iterations);
            },
        };
        let dynamic_iterations = match parse_u32_in(chars.as_slice(), fields[3].0, fields[3].1) {
            Some(iterations) => iterations,
            None => {
                return Err(ChallengeParseError::Iterations);
            },
        };
        proof {
            lemma_salt_of(static_salt);
            lemma_salt_of(dynamic_salt);
        }
        Ok(
            Challenge {
                statick: Pbkdf2Params { iterations: static_iterations, salt: static_salt },
                dynamic: Pbkdf2Params { iterations: dynamic_iterations, salt: dynamic_salt },
            },
        )
    }

    /// The response that `password` earns: the dynamic salt, and the hash, with
    /// the dynamic parameters, of the password's hash with the static ones.
    pub fn response(&self, password: &[u8]) -> (response: Response)
        ensures
            (response.salt@, response.hash@) == spec_response(*self, password@),
    {
        let static_hash = self.statick.hash(password);
        let dynamic_hash = self.dynamic.hash(static_hash.as_slice());
        Response { salt: self.dynamic.salt, hash: dynamic_hash }
    }

    /// The response that the password `password` earns, hashed as the bytes of
    /// its UTF-8 encoding.
    pub fn make_response(&self, password: &str) -> (response: Response)
        ensures
            (response.salt@, response.hash@) == spec_response(*self, password.spec_bytes()),
    {
        self.response(password.as_bytes())
    }
}

impl Response {
    /// The response as the device expects it: the salt and the hash in
    /// lower-case hexadecimal digits, with a `$` between them.
    pub fn to_string(&self) -> (text: String)
        ensures
            text@ == hex_of_bytes(self.salt@) + seq!['$'] + hex_of_bytes(self.hash@),
    {
        let mut text = encode_hex(self.salt.as_slice());
        let hash = encode_hex(self.hash.as_slice());
        proof {
            reveal_strlit("$");
            assert("$"@ =~= seq!['$']);
        }
        text.append("$");
        text.append(hash.as_str());
        text
    }
}

} // verus!
