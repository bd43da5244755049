//! The Address Resolver: decides what literal address text denotes, and
//! applies the lookup policy to a hostname resolution answer.
//!
//! The hostname lookup itself is I/O and lives outside the library; the
//! caller performs it when `resolve_literal` answers `NotALiteral` and hands
//! the addresses it obtained to `resolve_from_lookup`.

use vstd::prelude::*;
use crate::addr::IpAddress;
use crate::addr::parse_ip_literal;
use crate::addr::spec_parse_ip;

verus! {

/// Why a destination could not be resolved.
#[derive(Clone, Copy, PartialEq, Eq, Structural, Debug)]
pub enum ResolutionError {
    /// The text is neither a literal address nor a name with addresses.
    Invalid,
    /// The address is the unspecified (all-zero) address.
    Unspecified,
}

/// What resolving literal text yields when it does not fail.
#[derive(Clone, Copy, PartialEq, Eq, Structural, Debug)]
pub enum LiteralResolution {
    /// The text is a literal address; it is used directly, unchanged.
    Resolved(IpAddress),
    /// The text is no literal; a hostname lookup must decide.
    NotALiteral,
}

/// Resolves literal address text. A valid literal is returned unchanged,
/// except that the unspecified address is rejected; any other text is left
/// to the hostname lookup.
pub fn resolve_literal(input: &str) -> (r: Result<LiteralResolution, ResolutionError>)
    ensures
        (match spec_parse_ip(input@) {
            Some(a) => if a.spec_is_unspecified() {
                r == Err::<LiteralResolution, ResolutionError>(ResolutionError::Unspecified)
            } else {
                r == Ok::<LiteralResolution, ResolutionError>(LiteralResolution::Resolved(a))
            },
            None => r == Ok::<LiteralResolution, ResolutionError>(LiteralResolution::NotALiteral),
        }),
{
    match parse_ip_literal(input) {
        Some(a) => {
            if a.is_unspecified() {
                Err(ResolutionError::Unspecified)
            } else {
                Ok(LiteralResolution::Resolved(a))
            }
        }
        None => Ok(LiteralResolution::NotALiteral),
    }
}

/// Applies the lookup policy to a hostname lookup's answer: the first
/// address returned is taken (a policy choice, not a claim of best route),
/// an empty answer is invalid, and the unspecified address is rejected.
pub fn resolve_from_lookup(addresses: &Vec<IpAddress>) -> (r: Result<IpAddress, ResolutionError>)
    ensures
        addresses@.len() == 0 ==> r == Err::<IpAddress, ResolutionError>(ResolutionError::Invalid),
        addresses@.len() > 0 && addresses@[0].spec_is_unspecified() ==> r == Err::<
            IpAddress,
            ResolutionError,
        >(ResolutionError::Unspecified),
        addresses@.len() > 0 && !addresses@[0].spec_is_unspecified() ==> r == Ok::<
            IpAddress,
            ResolutionError,
        >(addresses@[0]),
{
    if addresses.len() == 0 {
        Err(ResolutionError::Invalid)
    } else {
        let a = addresses[0];
        if a.is_unspecified() {
            Err(ResolutionError::Unspecified)
        } else {
            Ok(a)
        }
    }
}

} // verus!
