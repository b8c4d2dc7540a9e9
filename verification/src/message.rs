//! The message: the immutable pair of decoded text and origin address
//! that an inbound connection handler creates from one read and the
//! display loop renders once.

use crate::addr::Addr;
use vstd::prelude::*;

verus! {

/// One inbound message: the text decoded from one read of raw bytes,
/// and the remote endpoint it came from.
#[derive(Clone, Debug, PartialEq)]
pub struct Message {
    pub text: String,
    pub origin: Addr,
}

/// The text that best-effort decoding yields for a byte sequence: a
/// pure function of the bytes alone, left unnamed beyond what the
/// clauses of `decode_lossy` state of it.
pub uninterp spec fn lossy_decode(bytes: Seq<u8>) -> Seq<char>;

/// Relies on String::from_utf8_lossy: the result is a pure function of
/// the bytes; a byte slice that is valid UTF-8 converts straight to
/// the string it encodes, and invalid sequences are replaced, never an
/// error.
#[verifier::external_body]
fn decode_lossy(bytes: &[u8]) -> (r: String)
    ensures
        r@ == lossy_decode(bytes@),
        vstd::utf8::valid_utf8(bytes@) ==> r@ == vstd::utf8::decode_utf8(bytes@),
{
    String::from_utf8_lossy(bytes).into_owned()
}

/// Well-formed bytes survive the trip to the display exactly: when a
/// read chunk is valid UTF-8, the text of the message built for it —
/// as `Message::from_bytes` ensures, its decoding — encodes back to
/// precisely the bytes the peer wrote, so nothing is lost or changed
/// but at the chunk boundaries themselves.
pub proof fn lemma_valid_chunk_bytes_exact(bytes: Seq<u8>, text: Seq<char>)
    requires
        vstd::utf8::valid_utf8(bytes),
        text == vstd::utf8::decode_utf8(bytes),
    ensures
        vstd::utf8::encode_utf8(text) == bytes,
{
    vstd::utf8::decode_utf8_encode_utf8(bytes);
}

impl Message {
    /// Builds the message for one chunk of bytes read from `origin`,
    /// decoding the bytes as text best-effort.
    pub fn from_bytes(origin: Addr, bytes: &[u8]) -> (m: Message)
        ensures
            m.origin == origin,
            m.text@ == lossy_decode(bytes@),
            vstd::utf8::valid_utf8(bytes@) ==> m.text@ == vstd::utf8::decode_utf8(bytes@),
    {
        Message { text: decode_lossy(bytes), origin }
    }

    /// The display line for this message: `origin: text`.
    pub open spec fn spec_display_line(self) -> Seq<char> {
        self.origin.spec_str() + seq![':', ' '] + self.text@
    }

    /// Renders this message for display, as its origin, a separating
    /// `: `, and the text.
    pub fn display_line(&self) -> (s: String)
        ensures
            s@ == self.spec_display_line(),
    {
        let mut s = self.origin.render();
        proof {
            reveal_strlit(": ");
        }
        s.append(": ");
        s.append(self.text.as_str());
        proof {
            assert(s@ =~= self.spec_display_line());
        }
        s
    }
}

} // verus!
