//! The adaptive byte codec: one branch on the format's human-readable
//! property chooses between the raw binary representation and the base-64
//! text representation, and the matching branch undoes it.

use vstd::prelude::*;
use crate::b64::{base64_encode, decode_from_base64, encode_to_base64, lemma_base64_encode_injective};

verus! {

/// The wire representation of a byte buffer: base-64 text for human-readable
/// formats, the raw bytes themselves for binary formats.  Which variant is
/// produced is decided solely by the format's human-readable property at the
/// moment of encoding, never stored in the representation.
pub enum Encoded {
    /// The base-64 text written through a human-readable format.
    Text(String),
    /// The raw bytes written through a binary format, which the host format
    /// frames with its own length prefix.
    Bytes(Vec<u8>),
}

/// The mathematical value of an [`Encoded`] representation.
pub enum EncodedView {
    Text(Seq<char>),
    Bytes(Seq<u8>),
}

impl View for Encoded {
    type V = EncodedView;

    open spec fn view(&self) -> EncodedView {
        match self {
            Encoded::Text(s) => EncodedView::Text(s@),
            Encoded::Bytes(b) => EncodedView::Bytes(b@),
        }
    }
}

/// The error the codec itself introduces: the text handed to [`decode`] was
/// not valid base-64.  Failures of the host format's own reads and writes
/// never reach the codec and are propagated by the caller unchanged.
#[derive(Debug)]
pub enum DecodeError {
    /// The text is not a canonical RFC 4648 base-64 encoding; the message
    /// embeds the underlying decoder's diagnostic.
    InvalidBase64 { message: String },
}

impl DecodeError {
    /// The human-readable description of the failure.
    pub fn message(&self) -> (r: &String)
        ensures
            self matches DecodeError::InvalidBase64 { message } && r@ == message@,
    {
        match self {
            DecodeError::InvalidBase64 { message } => message,
        }
    }
}

/// The representation that encoding `bytes` produces under the given
/// human-readable property: its base-64 text when the property holds, the
/// bytes unchanged otherwise.
pub open spec fn spec_encode(bytes: Seq<u8>, human_readable: bool) -> EncodedView {
    if human_readable {
        EncodedView::Text(base64_encode(bytes))
    } else {
        EncodedView::Bytes(bytes)
    }
}

/// The byte buffer a representation stands for: raw bytes stand for
/// themselves, and text stands for the bytes it is the base-64 encoding of,
/// when such bytes exist.
pub open spec fn spec_decode(rep: EncodedView) -> Option<Seq<u8>> {
    match rep {
        EncodedView::Bytes(b) => Some(b),
        EncodedView::Text(s) => if exists|b: Seq<u8>| base64_encode(b) == s {
            Some(choose|b: Seq<u8>| base64_encode(b) == s)
        } else {
            None
        },
    }
}

/// Encode a byte buffer for the active format: base-64 text when the format
/// is human-readable, the raw bytes otherwise.
pub fn encode(bytes: &Vec<u8>, human_readable: bool) -> (r: Encoded)
    ensures
        r@ == spec_encode(bytes@, human_readable),
{
    if human_readable {
        Encoded::Text(encode_to_base64(bytes.as_slice()))
    } else {
        Encoded::Bytes(vstd::slice::slice_to_vec(bytes.as_slice()))
    }
}

/// Decode a representation back into the byte buffer it stands for.  Raw
/// bytes always succeed; text succeeds exactly when it is valid base-64, and
/// fails with [`DecodeError::InvalidBase64`] otherwise, returning no partial
/// bytes.
pub fn decode(rep: Encoded) -> (r: Result<Vec<u8>, DecodeError>)
    ensures
        match r {
            Ok(v) => spec_decode(rep@) == Some(v@),
            Err(e) => spec_decode(rep@) is None && rep@ is Text,
        },
{
    match rep {
        Encoded::Bytes(b) => Ok(b),
        Encoded::Text(s) => match decode_from_base64(s.as_str()) {
            Ok(v) => {
                proof {
                    let w = choose|b: Seq<u8>| base64_encode(b) == s@;
                    lemma_base64_encode_injective(w, v@);
                }
                Ok(v)
            },
            Err(message) => Err(DecodeError::InvalidBase64 { message }),
        },
    }
}

/// Round-trip identity: whatever the format's human-readable property,
/// decoding what encoding produced gives back exactly the original bytes.
pub proof fn lemma_round_trip(bytes: Seq<u8>, human_readable: bool)
    ensures
        spec_decode(spec_encode(bytes, human_readable)) == Some(bytes),
{
    if human_readable {
        assert(base64_encode(bytes) == base64_encode(bytes));
        let w = choose|b: Seq<u8>| base64_encode(b) == base64_encode(bytes);
        lemma_base64_encode_injective(w, bytes);
    }
}

/// Mode independence: the same byte content, encoded once in each mode,
/// decodes back to the same bytes despite the differing wire representations.
pub proof fn lemma_mode_independence(bytes: Seq<u8>)
    ensures
        spec_decode(spec_encode(bytes, true)) == spec_decode(spec_encode(bytes, false)),
{
    lemma_round_trip(bytes, true);
    lemma_round_trip(bytes, false);
}

} // verus!
