//! Web addresses: telling a relative address from an absolute one, and
//! joining a relative address to a base. Both are done by the `url` crate.

use url::{ParseError, Url};
use vstd::prelude::*;

verus! {

/// What a piece of text is, read as a web address.
#[derive(Debug, Clone, Copy, PartialEq, Eq, Structural)]
pub enum AddressKind {
    /// A complete address.
    Absolute,
    /// An address that needs a base to be complete.
    Relative,
    /// No address.
    Invalid,
}

/// What `text` is, read as a web address.
pub uninterp spec fn address_kind(text: Seq<char>) -> AddressKind;

/// The address that `reference` names when it is read against `base`;
/// `None` where `base` is no complete address or the two cannot be joined.
pub uninterp spec fn joined_address(base: Seq<char>, reference: Seq<char>) -> Option<Seq<char>>;

/// `Url::parse`: whether `text` parses as an address, fails for want of a
/// base, or fails otherwise.
#[verifier::external_body]
pub(crate) fn kind_of_address(text: &str) -> (kind: AddressKind)
    ensures
        kind == address_kind(text@),
{
    match Url::parse(text) {
        Ok(_) => AddressKind::Absolute,
        Err(ParseError::RelativeUrlWithoutBase) => AddressKind::Relative,
        Err(_) => AddressKind::Invalid,
    }
}

/// `Url::parse` on `base`, then `Url::join` with `reference`: the joined
/// address in its serialised form. `None` where either step fails.
#[verifier::external_body]
pub(crate) fn join_address(base: &str, reference: &str) -> (joined: Option<String>)
    ensures
        match joined {
            Some(address) => joined_address(base@, reference@) == Some(address@),
            None => joined_address(base@, reference@) is None,
        },
{
    let joined = Url::parse(base).ok()?.join(reference).ok()?;
    Some(String::from(joined))
}

/// The complete form of an address found on a page whose own address is
/// `base`: a relative address is joined to the base, any other text is left
/// as it is. `None` where a relative address cannot be joined.
pub open spec fn complete_address(base: Seq<char>, address: Seq<char>) -> Option<Seq<char>> {
    if address_kind(address) == AddressKind::Relative {
        joined_address(base, address)
    } else {
        Some(address)
    }
}

/// The complete form of an address found on a page whose own address is
/// `base`.
pub fn complete(base: &str, address: &str) -> (r: Option<String>)
    ensures
        match r {
            Some(full) => complete_address(base@, address@) == Some(full@),
            None => complete_address(base@, address@) is None,
        },
{
    match kind_of_address(address) {
        AddressKind::Relative => join_address(base, address),
        _ => Some(address.to_owned()),
    }
}

} // verus!
