//! Peer identities: the fixed-length public identifiers by which peers are
//! addressed when dialing.

use std::str::FromStr;
use vstd::prelude::*;

verus! {

/// Number of bytes in a peer identity.
pub const IDENTITY_LEN: usize = 32;

/// The identity that a peer's textual address denotes, if it denotes one.
///
/// This names the result of parsing a public key from its textual form
/// (64 lower-case hexadecimal digits, or unpadded base32 in either case),
/// which succeeds only for encodings of a valid Ed25519 public key.
pub uninterp spec fn identity_of_text(text: Seq<char>) -> Option<Seq<u8>>;

/// An opaque public identifier of a peer, immutable once made.
#[derive(Clone, Copy, Debug, PartialEq, Eq)]
pub struct PeerIdentity {
    bytes: [u8; 32],
}

impl View for PeerIdentity {
    type V = Seq<u8>;

    closed spec fn view(&self) -> Seq<u8> {
        self.bytes@
    }
}

/// Decodes a textual peer address with `iroh::EndpointId::from_str`.
///
/// Trusted: the result is the key's 32 bytes when the text parses, and
/// nothing when it does not; which texts parse, and to what, is named by
/// [`identity_of_text`] and not stated further.
#[verifier::external_body]
fn decode_endpoint_id(text: &str) -> (decoded: Option<[u8; 32]>)
    ensures
        match decoded {
            Some(bytes) => identity_of_text(text@) == Some(bytes@),
            None => identity_of_text(text@) is None,
        },
{
    match iroh::EndpointId::from_str(text) {
        Ok(id) => Some(*id.as_bytes()),
        Err(_) => None,
    }
}

impl PeerIdentity {
    /// The identity made of exactly these bytes.
    pub fn from_bytes(bytes: [u8; 32]) -> (id: PeerIdentity)
        ensures
            id@ == bytes@,
    {
        PeerIdentity { bytes }
    }

    /// The identity that `text` denotes, or nothing when `text` is not a
    /// peer address.
    pub fn parse(text: &str) -> (parsed: Option<PeerIdentity>)
        ensures
            match parsed {
                Some(id) => identity_of_text(text@) == Some(id@),
                None => identity_of_text(text@) is None,
            },
    {
        match decode_endpoint_id(text) {
            Some(bytes) => Some(PeerIdentity { bytes }),
            None => None,
        }
    }

    /// The identity's bytes.
    pub fn to_bytes(&self) -> (bytes: [u8; 32])
        ensures
            bytes@ == self@,
    {
        self.bytes
    }

    /// Whether two identities name the same peer.
    pub fn same_as(&self, other: &PeerIdentity) -> (same: bool)
        ensures
            same == (self@ == other@),
    {
        crate::tag::bytes_equal(self.bytes.as_slice(), other.bytes.as_slice())
    }
}

/// Every identity has the fixed length.
pub proof fn lemma_identity_len(id: PeerIdentity)
    ensures
        id@.len() == IDENTITY_LEN,
{
}

} // verus!
