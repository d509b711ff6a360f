//! The installation's randomization identifier.
use vstd::prelude::*;
use crate::config::Config;

verus! {

/// A 128-bit identifier, big-endian as in its text form.
#[derive(Clone, Copy, Debug, PartialEq, Eq, Structural)]
pub struct Uuid {
    pub bits: u128,
}

/// The value that `uuid::Uuid::parse_str` reads from `s`, if it accepts it.
pub uninterp spec fn parsed_uuid(s: Seq<char>) -> Option<u128>;

/// The lower-case hex digit for `v` (below 16).
pub open spec fn hex_digit(v: u128) -> char {
    if v < 10 {
        ((48 + v) as u8) as char
    } else {
        ((87 + v) as u8) as char
    }
}

/// The `j`-th of the 32 four-bit digits of `bits`, most significant first.
pub open spec fn nibble(bits: u128, j: int) -> u128 {
    (bits >> ((4 * (31 - j)) as u128)) & 0xfu128
}

/// The number of hyphens before position `k` of the hyphenated text.
pub open spec fn hyphens_before(k: int) -> int {
    if k <= 8 {
        0
    } else if k <= 13 {
        1
    } else if k <= 18 {
        2
    } else if k <= 23 {
        3
    } else {
        4
    }
}

/// The hyphenated lower-case text of the identifier `bits`: its 32 hex
/// digits, most significant first, in groups of 8, 4, 4, 4 and 12 joined
/// by hyphens.
pub open spec fn uuid_text(bits: u128) -> Seq<char> {
    Seq::new(
        36,
        |k: int|
            if k == 8 || k == 13 || k == 18 || k == 23 {
                '-'
            } else {
                hex_digit(nibble(bits, k - hyphens_before(k)))
            },
    )
}

/// Relies on `uuid::Uuid::parse_str` (simple, hyphenated or urn form) and
/// `uuid::Uuid::as_u128`: the result depends on the text alone.
#[verifier::external_body]
fn parse_uuid(s: &str) -> (r: Option<u128>)
    ensures
        r == parsed_uuid(s@),
{
    uuid::Uuid::parse_str(s).ok().map(|u| u.as_u128())
}

/// Whether `bits` is a version-4 (random) identifier with the RFC 4122
/// variant: version nibble 4 in bits 76..80, variant bits `10` in 62..64.
pub open spec fn is_random_v4(bits: u128) -> bool {
    (bits >> 76u128) & 0xfu128 == 4 && (bits >> 62u128) & 0x3u128 == 2
}

/// Relies on `uuid::Uuid::new_v4`: random bytes with the version set to 4
/// and the variant to RFC 4122. It panics only when the system has no
/// source of random bytes.
#[verifier::external_body]
fn random_uuid() -> (r: u128)
    ensures
        is_random_v4(r),
{
    uuid::Uuid::new_v4().as_u128()
}

/// Relies on `uuid::Uuid::from_u128` (big-endian) and its `Display`, which
/// writes the 36-character hyphenated lower-case form.
#[verifier::external_body]
fn format_uuid(bits: u128) -> (r: String)
    ensures
        r@ == uuid_text(bits),
        r@.len() == 36,
{
    uuid::Uuid::from_u128(bits).to_string()
}

impl Uuid {
    /// The hyphenated lower-case text of this identifier.
    pub fn to_hyphenated_string(&self) -> (r: String)
        ensures
            r@ == uuid_text(self.bits),
            r@.len() == 36,
    {
        format_uuid(self.bits)
    }
}

/// The identifier that `config` fixes, if it holds one in a form that parses.
pub open spec fn configured_uuid(config: Option<Config>) -> Option<u128> {
    match config {
        Some(c) => match c.uuid {
            Some(s) => parsed_uuid(s@),
            None => None,
        },
        None => None,
    }
}

/// The installation identifier: the one that `config` fixes when it holds
/// one in a form that parses, else a fresh random version-4 one.
pub fn generate_uuid(config: Option<Config>) -> (r: Uuid)
    ensures
        match configured_uuid(config) {
            Some(v) => r.bits == v,
            None => is_random_v4(r.bits),
        },
{
    if let Some(config) = config {
        if let Some(uuid) = config.uuid {
            return match parse_uuid(uuid.as_str()) {
                Some(v) => Uuid { bits: v },
                None => Uuid { bits: random_uuid() },
            };
        }
    }
    Uuid { bits: random_uuid() }
}

} // verus!
