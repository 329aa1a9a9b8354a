//! Who may talk to the server.

use crate::text::{
    begins_with, ends_with, lowered, maybe, same_ignoring_case, strip_prefix, strip_suffix,
};
use vstd::prelude::*;

verus! {

/// The host that the text of a `Host` header names; nothing where the text is no authority.
pub uninterp spec fn authority_host(value: Seq<char>) -> Option<Seq<char>>;

/// Reads a text with `http::uri::Authority`'s `FromStr` and takes its `host()`, the part between a
/// user and a port. Which texts are authorities, and what their host is, is named, not stated.
#[verifier::external_body]
fn read_host(value: &str) -> (r: Option<String>)
    ensures
        maybe(r) == authority_host(value@),
{
    value.parse::<axum::http::uri::Authority>().ok().map(|authority| authority.host().to_owned())
}

/// A host without the brackets that an IPv6 address stands in.
pub open spec fn without_brackets(host: Seq<char>) -> Seq<char> {
    if begins_with(host, "["@) && ends_with(host.skip(1), "]"@) {
        host.skip(1).drop_last()
    } else {
        host
    }
}

/// The text of a host that may be an address.
pub fn address_of(host: &str) -> (r: String)
    ensures
        r@ == without_brackets(host@),
{
    proof {
        reveal_strlit("[");
        reveal_strlit("]");
    }
    if let Some(inner) = strip_prefix(host, "[") {
        assert(inner@ =~= host@.skip(1));
        if let Some(address) = strip_suffix(inner.as_str(), "]") {
            assert(address@ =~= host@.skip(1).drop_last());
            return address;
        }
    }
    host.to_owned()
}

/// The text that has to be read as an address to tell whether a request may pass.
pub fn host_address(value: &str) -> (r: Option<String>)
    ensures
        maybe(r) == (match authority_host(value@) {
            Some(host) => Some(without_brackets(host)),
            None => None,
        }),
{
    match read_host(value) {
        Some(host) => Some(address_of(host.as_str())),
        None => None,
    }
}

/// Whether a host is this machine, given whether its address is a loopback address.
pub open spec fn local_host(host: Seq<char>, address_is_loopback: bool) -> bool {
    lowered(host) == lowered("localhost"@) || address_is_loopback
}

/// Whether a host is this machine, given whether its address is a loopback address.
pub fn is_local_host(host: &str, address_is_loopback: bool) -> (r: bool)
    ensures
        r == local_host(host@, address_is_loopback),
{
    same_ignoring_case(host, "localhost") || address_is_loopback
}

/// Whether the authority of a request names this machine, given whether [`host_address`] of it is a
/// loopback address.
pub fn is_loopback_authority(value: &str, address_is_loopback: bool) -> (r: bool)
    ensures
        r == (authority_host(value@) matches Some(host) && local_host(host, address_is_loopback)),
{
    match read_host(value) {
        Some(host) => is_local_host(host.as_str(), address_is_loopback),
        None => false,
    }
}

/// A request whose `Host` header is missing, is no text or names no authority does not pass.
pub fn may_pass(host: Option<&str>, address_is_loopback: bool) -> (r: bool)
    ensures
        r == (host matches Some(value) && authority_host(value@) matches Some(h) && local_host(
            h,
            address_is_loopback,
        )),
{
    match host {
        Some(value) => is_loopback_authority(value, address_is_loopback),
        None => false,
    }
}

} // verus!
