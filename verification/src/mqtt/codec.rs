//! The two capabilities that every packet kind has: writing itself to a
//! buffer and reading itself from a payload.

use vstd::prelude::*;
use crate::mqtt::error::DecodeError;
use crate::mqtt::wire::MAX_FIELD_LEN;

verus! {

/// A value that has a wire form.
pub trait Encode {
    /// The bytes that stand for this value.
    spec fn spec_wire(&self) -> Seq<u8>;

    /// Whether every length prefix and count of the wire form can hold the
    /// number it has to announce.
    spec fn spec_encodable(&self) -> bool;

    /// Appends the wire form to `buf` and leaves what `buf` held untouched.
    fn encode(&self, buf: &mut Vec<u8>)
        requires
            self.spec_encodable(),
        ensures
            final(buf)@ == old(buf)@ + self.spec_wire(),
    ;

    /// The number of bytes that `encode` appends.
    fn encoded_len(&self) -> (len: usize)
        requires
            self.spec_wire().len() <= usize::MAX,
        ensures
            len == self.spec_wire().len(),
    ;

    /// The wire form in a buffer of its own.
    fn to_bytes(&self) -> (bytes: Vec<u8>)
        requires
            self.spec_encodable(),
            self.spec_wire().len() <= usize::MAX,
        ensures
            bytes@ == self.spec_wire(),
    {
        let mut buf = Vec::with_capacity(self.encoded_len());
        self.encode(&mut buf);
        assert(buf@ =~= self.spec_wire());
        buf
    }
}

/// The outcome of a decode with the decoded value replaced by its view.
pub open spec fn spec_outcome<T: View>(r: Result<T, DecodeError>) -> Result<T::V, DecodeError> {
    match r {
        Ok(v) => Ok(v@),
        Err(e) => Err(e),
    }
}

/// Whether every offset that a decoder may report for a buffer of this
/// length is a `usize`.
pub open spec fn spec_offsets_fit(len: nat) -> bool {
    len + 2 + MAX_FIELD_LEN <= usize::MAX
}

/// A value that can be read from a payload.
pub trait Decode: Sized + View {
    /// What decoding a payload yields: the value, or the first fault met
    /// from left to right.
    spec fn spec_decode(buf: Seq<u8>) -> Result<Self::V, DecodeError>;

    /// Decodes the payload `buf`. Bytes behind the last field are ignored.
    fn decode(buf: &[u8]) -> (r: Result<Self, DecodeError>)
        requires
            spec_offsets_fit(buf@.len()),
        ensures
            spec_outcome(r) == Self::spec_decode(buf@),
    ;
}

} // verus!
