//! Protocol tags: the opaque byte strings by which two peers agree on a
//! sub-protocol when a connection is set up.

use vstd::prelude::*;
use vstd::slice::slice_to_vec;
use vstd::string::StringSliceAdditionalSpecFns;

verus! {

/// An opaque byte string naming a sub-protocol.
///
/// Tags carry no structure: two tags are the same protocol exactly when
/// they hold the same bytes.
#[derive(Clone, Debug, PartialEq, Eq)]
pub struct ProtocolTag {
    bytes: Vec<u8>,
}

impl View for ProtocolTag {
    type V = Seq<u8>;

    closed spec fn view(&self) -> Seq<u8> {
        self.bytes@
    }
}

/// The bytes of the tag under which the echo service is offered.
pub open spec fn echo_tag_bytes() -> Seq<u8> {
    "iroh-example/echo/0".spec_bytes()
}

/// The bytes of the tag under which the ping service is offered.
pub open spec fn ping_tag_bytes() -> Seq<u8> {
    "test/ping/0".spec_bytes()
}

/// Byte-for-byte comparison of two byte strings.
pub fn bytes_equal(a: &[u8], b: &[u8]) -> (same: bool)
    ensures
        same == (a@ == b@),
{
    if a.len() != b.len() {
        return false;
    }
    let mut i: usize = 0;
    while i < a.len()
        invariant
            a@.len() == b@.len(),
            i <= a@.len(),
            forall|j: int| 0 <= j < i ==> a@[j] == b@[j],
        decreases a@.len() - i,
    {
        if a[i] != b[i] {
            return false;
        }
        i += 1;
    }
    assert(a@ =~= b@);
    true
}

impl ProtocolTag {
    /// A tag holding exactly `bytes`.
    pub fn new(bytes: Vec<u8>) -> (tag: ProtocolTag)
        ensures
            tag@ == bytes@,
    {
        ProtocolTag { bytes }
    }

    /// A tag holding the UTF-8 bytes of `text`.
    pub fn from_text(text: &str) -> (tag: ProtocolTag)
        ensures
            tag@ == text.spec_bytes(),
    {
        ProtocolTag { bytes: slice_to_vec(text.as_bytes()) }
    }

    /// The tag of the echo service.
    pub fn echo() -> (tag: ProtocolTag)
        ensures
            tag@ == echo_tag_bytes(),
    {
        ProtocolTag::from_text("iroh-example/echo/0")
    }

    /// The tag of the ping service.
    pub fn ping() -> (tag: ProtocolTag)
        ensures
            tag@ == ping_tag_bytes(),
    {
        ProtocolTag::from_text("test/ping/0")
    }

    /// The tag's bytes.
    pub fn as_bytes(&self) -> (bytes: &[u8])
        ensures
            bytes@ == self@,
    {
        self.bytes.as_slice()
    }

    /// A copy of the tag's bytes.
    pub fn to_vec(&self) -> (bytes: Vec<u8>)
        ensures
            bytes@ == self@,
    {
        slice_to_vec(self.bytes.as_slice())
    }

    /// Number of bytes in the tag.
    pub fn len(&self) -> (n: usize)
        ensures
            n == self@.len(),
    {
        self.bytes.len()
    }

    /// Whether this tag names the protocol requested by `requested`.
    pub fn matches(&self, requested: &[u8]) -> (same: bool)
        ensures
            same == (self@ == requested@),
    {
        bytes_equal(self.bytes.as_slice(), requested)
    }
}

/// The echo tag and the ping tag name different protocols.
pub proof fn lemma_standard_tags_differ()
    ensures
        echo_tag_bytes() != ping_tag_bytes(),
        echo_tag_bytes().len() == 19,
        ping_tag_bytes().len() == 11,
{
    reveal_strlit("iroh-example/echo/0");
    reveal_strlit("test/ping/0");
    vstd::string::is_ascii_spec_bytes("iroh-example/echo/0");
    vstd::string::is_ascii_spec_bytes("test/ping/0");
}

} // verus!
