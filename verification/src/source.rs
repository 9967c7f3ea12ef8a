//! Byte sources: "read this many bytes at this offset".
//!
//! The local source answers from a buffer that it holds. A read is answered
//! in full or not at all.

use vstd::prelude::*;
use vstd::slice::slice_subrange;

verus! {

/// The source could not give every byte that was asked for.
#[derive(Copy, Clone, Debug, PartialEq, Eq, Structural)]
pub struct ReadFault;

/// What a read of `length` bytes at `offset` gives on a source that holds
/// `data`: the bytes of that span, or a fault where the span does not lie
/// within the data.
pub open spec fn read_of(data: Seq<u8>, offset: u64, length: u64) -> Result<Seq<u8>, ReadFault> {
    if offset + length <= data.len() {
        Ok(data.subrange(offset as int, offset + length))
    } else {
        Err(ReadFault)
    }
}

/// Whether `answer` is what a read of `length` bytes at `offset` gives on a
/// source that holds `data`.
pub open spec fn answers(data: Seq<u8>, offset: u64, length: u64, answer: Result<Vec<u8>, ReadFault>) -> bool {
    match (answer, read_of(data, offset, length)) {
        (Ok(bytes), Ok(expected)) => bytes@ == expected,
        (Err(_), Err(_)) => true,
        _ => false,
    }
}

/// A source that answers from a buffer in memory, such as a file that was
/// loaded once.
pub struct LocalSource {
    data: Vec<u8>,
}

impl View for LocalSource {
    type V = Seq<u8>;

    closed spec fn view(&self) -> Seq<u8> {
        self.data@
    }
}

impl LocalSource {
    /// A source that holds `data`.
    pub fn new(data: Vec<u8>) -> (r: Self)
        ensures
            r@ == data@,
    {
        LocalSource { data }
    }

    /// Number of bytes that the source holds.
    pub fn len(&self) -> (r: usize)
        ensures
            r == self@.len(),
    {
        self.data.len()
    }

    /// Everything that the source holds.
    pub fn bytes(&self) -> (r: &[u8])
        ensures
            r@ == self@,
    {
        self.data.as_slice()
    }

    /// Reads `length` bytes at `offset`. Fails exactly when the span does
    /// not lie within the buffer; nothing is read in part.
    pub fn read(&self, offset: u64, length: u64) -> (r: Result<Vec<u8>, ReadFault>)
        ensures
            answers(self@, offset, length, r),
    {
        let total = self.data.len() as u64;
        if offset > total || length > total - offset {
            return Err(ReadFault);
        }
        let start = offset as usize;
        let end = start + length as usize;
        let span = slice_subrange(self.data.as_slice(), start, end);
        let mut bytes: Vec<u8> = Vec::new();
        let mut i: usize = 0;
        while i < span.len()
            invariant
                i <= span@.len(),
                bytes@ == span@.take(i as int),
            decreases span@.len() - i,
        {
            bytes.push(span[i]);
            i += 1;
            proof {
                assert(bytes@ =~= span@.take(i as int));
            }
        }
        proof {
            assert(span@.take(span@.len() as int) =~= span@);
        }
        Ok(bytes)
    }
}

/// Two reads of the same span of the same bytes give the same answer: both
/// fail, or both give the same bytes.
pub proof fn lemma_read_deterministic(data: Seq<u8>, offset: u64, length: u64, first: Result<Vec<u8>, ReadFault>, second: Result<Vec<u8>, ReadFault>)
    requires
        answers(data, offset, length, first),
        answers(data, offset, length, second),
    ensures
        first is Ok <==> second is Ok,
        first matches Ok(a) ==> second matches Ok(b) && a@ == b@,
{
}

} // verus!
