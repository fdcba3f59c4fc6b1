//! A concrete decoder that frames on a fixed delimiter byte: each item
//! is the run of bytes up to (and not including) the next delimiter.

use vstd::prelude::*;
use crate::codec::Decoder;
use crate::codec::FromSourceError;

verus! {

/// The unified error channel of the line codec: a parse-side truncation,
/// or a transport-level source failure carried through by its code.
#[derive(Debug, PartialEq, Eq)]
pub enum CodecError {
    /// The source ended while buffered bytes remained that do not form a
    /// complete final item.
    Truncated,
    /// Chunk acquisition failed with this transport error code.
    Source(u64),
}

impl FromSourceError<u64> for CodecError {
    open spec fn from_source_spec(e: u64) -> Self {
        CodecError::Source(e)
    }

    fn from_source_error(e: u64) -> (r: Self) {
        CodecError::Source(e)
    }
}

/// The index of the first occurrence of `d` in `s`, if any.
pub open spec fn find_delim(s: Seq<u8>, d: u8) -> Option<int>
    decreases s.len(),
{
    if s.len() == 0 {
        Option::None
    } else if s[0] == d {
        Option::Some(0int)
    } else {
        match find_delim(s.skip(1), d) {
            Option::Some(i) => Option::Some(i + 1),
            Option::None => Option::None,
        }
    }
}

/// `find_delim` finds exactly the first occurrence: the byte there is
/// the delimiter, nothing before it is, and a miss means the delimiter
/// is nowhere in the sequence.
pub proof fn lemma_find_delim(s: Seq<u8>, d: u8)
    ensures
        match find_delim(s, d) {
            Option::Some(i) => 0 <= i < s.len() && s[i] == d
                && (forall|j: int| 0 <= j < i ==> s[j] != d),
            Option::None => forall|j: int| 0 <= j < s.len() ==> s[j] != d,
        },
    decreases s.len(),
{
    if s.len() == 0 {
    } else if s[0] == d {
    } else {
        lemma_find_delim(s.skip(1), d);
        match find_delim(s.skip(1), d) {
            Option::Some(i) => {
                assert(s[i + 1] == s.skip(1)[i]);
                assert forall|j: int| 0 <= j < i + 1 implies s[j] != d by {
                    if j >= 1 {
                        assert(s[j] == s.skip(1)[j - 1]);
                    }
                }
            },
            Option::None => {
                assert forall|j: int| 0 <= j < s.len() implies s[j] != d by {
                    if j >= 1 {
                        assert(s[j] == s.skip(1)[j - 1]);
                    }
                }
            },
        }
    }
}

/// A decoder that frames on the fixed delimiter byte `delim`. It is
/// stateless across calls: all partial-frame context lives in the
/// buffer.
pub struct LineDecoder {
    /// The byte that terminates each frame.
    pub delim: u8,
}

impl Decoder for LineDecoder {
    type Item = Vec<u8>;

    type Error = CodecError;

    open spec fn decode_spec(&self, buf: Seq<u8>) -> (Self, Seq<u8>, Result<
        Option<Seq<u8>>,
        CodecError,
    >) {
        match find_delim(buf, self.delim) {
            Option::Some(i) => (
                *self,
                buf.skip(i + 1),
                Result::Ok(Option::Some(buf.take(i))),
            ),
            Option::None => (*self, buf, Result::Ok(Option::None)),
        }
    }

    open spec fn decode_eof_spec(&self, buf: Seq<u8>) -> (Self, Seq<u8>, Result<
        Option<Seq<u8>>,
        CodecError,
    >) {
        if buf.len() == 0 {
            (*self, buf, Result::Ok(Option::None))
        } else {
            match find_delim(buf, self.delim) {
                Option::Some(i) => (
                    *self,
                    buf.skip(i + 1),
                    Result::Ok(Option::Some(buf.take(i))),
                ),
                Option::None => (*self, buf, Result::Err(CodecError::Truncated)),
            }
        }
    }

    fn decode(&mut self, buf: &mut Vec<u8>) -> (r: Result<Option<Vec<u8>>, CodecError>) {
        proof {
            lemma_find_delim(buf@, self.delim);
        }
        let n = buf.len();
        let mut i: usize = 0;
        while i < n && buf[i] != self.delim
            invariant
                n == buf@.len(),
                0 <= i <= n,
                forall|j: int| 0 <= j < i ==> buf@[j] != self.delim,
            decreases n - i,
        {
            i = i + 1;
        }
        if i == n {
            return Result::Ok(Option::None);
        }
        let item = take_frame(buf, i);
        Result::Ok(Option::Some(item))
    }

    fn decode_eof(&mut self, buf: &mut Vec<u8>) -> (r: Result<Option<Vec<u8>>, CodecError>) {
        proof {
            lemma_find_delim(buf@, self.delim);
        }
        let n = buf.len();
        if n == 0 {
            return Result::Ok(Option::None);
        }
        let mut i: usize = 0;
        while i < n && buf[i] != self.delim
            invariant
                n == buf@.len(),
                0 <= i <= n,
                forall|j: int| 0 <= j < i ==> buf@[j] != self.delim,
            decreases n - i,
        {
            i = i + 1;
        }
        if i == n {
            return Result::Err(CodecError::Truncated);
        }
        let item = take_frame(buf, i);
        Result::Ok(Option::Some(item))
    }
}

/// Splits one frame off the front of the buffer: returns the bytes
/// before position `i` and leaves in the buffer the bytes after
/// position `i`, dropping the byte at `i` itself (the delimiter).
fn take_frame(buf: &mut Vec<u8>, i: usize) -> (item: Vec<u8>)
    requires
        i < old(buf)@.len(),
    ensures
        item@ == old(buf)@.take(i as int),
        final(buf)@ == old(buf)@.skip(i + 1),
{
    let n = buf.len();
    let mut item: Vec<u8> = Vec::new();
    let mut j: usize = 0;
    while j < i
        invariant
            0 <= j <= i < n,
            n == buf@.len(),
            item@ == buf@.subrange(0, j as int),
        decreases i - j,
    {
        item.push(buf[j]);
        j = j + 1;
    }
    let mut rest: Vec<u8> = Vec::new();
    let mut k: usize = i + 1;
    while k < n
        invariant
            i + 1 <= k <= n,
            n == buf@.len(),
            rest@ == buf@.subrange(i + 1, k as int),
        decreases n - k,
    {
        rest.push(buf[k]);
        k = k + 1;
    }
    proof {
        assert(item@ =~= buf@.take(i as int));
        assert(rest@ =~= buf@.skip(i + 1));
    }
    *buf = rest;
    item
}

} // verus!
