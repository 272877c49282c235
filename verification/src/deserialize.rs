//! Reading frames back out of byte buffers.

use vstd::bytes::*;
use vstd::prelude::*;
use vstd::slice::*;

use crate::serial::spec_decode_frame;
use crate::serial::FrameResultV;
use crate::AnyMessage;
use crate::MsgType;

verus! {

/// Why a frame could not be decoded.
#[derive(Debug, Clone, Copy, PartialEq, Eq, Structural)]
pub enum DeserializeError {
    /// Fewer bytes than a header or a payload field demands.
    EOF,
    /// The type byte of a frame is not 1..=7.
    WrongMsgType(u8),
}

/// Resolves a wire tag to its message type: 1..=7 map to their documented
/// variants, every other byte is rejected as `WrongMsgType`.
pub fn make_msg_type(m: u8) -> (r: Result<MsgType, DeserializeError>)
    ensures
        match crate::spec_type_of_tag(m) {
            Some(t) => r == Ok::<MsgType, DeserializeError>(t),
            None => r == Err::<MsgType, DeserializeError>(DeserializeError::WrongMsgType(m)),
        },
{
    match m {
        1 => Ok(MsgType::Connect),
        2 => Ok(MsgType::UpdateFiles),
        3 => Ok(MsgType::Disconnect),
        4 => Ok(MsgType::RequestFile),
        5 => Ok(MsgType::RegisterPeer),
        6 => Ok(MsgType::UpdatePeer),
        7 => Ok(MsgType::UnregisterPeer),
        x => Err(DeserializeError::WrongMsgType(x)),
    }
}

/// A byte buffer with a read position, for decoding frames that were
/// already received whole.
#[derive(Debug)]
pub struct VecRead {
    buf: Vec<u8>,
    pointer: usize,
}

impl From<Vec<u8>> for VecRead {
    /// Wraps a buffer, with the read position at its start.
    fn from(buf: Vec<u8>) -> (r: VecRead) {
        VecRead { buf, pointer: 0 }
    }
}

impl vstd::std_specs::convert::FromSpecImpl<Vec<u8>> for VecRead {
    open spec fn obeys_from_spec() -> bool {
        true
    }

    closed spec fn from_spec(buf: Vec<u8>) -> VecRead {
        VecRead { buf, pointer: 0 }
    }
}

impl VecRead {
    /// The whole underlying buffer.
    pub closed spec fn buf_spec(&self) -> Seq<u8> {
        self.buf@
    }

    /// The read position.
    pub closed spec fn pos(&self) -> int {
        self.pointer as int
    }

    /// The bytes not yet consumed.
    pub open spec fn remaining_spec(&self) -> Seq<u8> {
        if self.pos() > self.buf_spec().len() {
            Seq::empty()
        } else {
            self.buf_spec().subrange(self.pos(), self.buf_spec().len() as int)
        }
    }

    /// How many bytes are not yet consumed.
    pub fn remaining(&self) -> (n: usize)
        ensures
            n == self.remaining_spec().len(),
    {
        if self.pointer > self.buf.len() {
            0
        } else {
            self.buf.len() - self.pointer
        }
    }

    /// Takes the next `n` bytes, or reports `EOF` and stays put when fewer
    /// remain.
    pub fn read_exact(&mut self, n: usize) -> (r: Result<Vec<u8>, DeserializeError>)
        ensures
            final(self).buf_spec() == old(self).buf_spec(),
            if n <= old(self).remaining_spec().len() {
                r matches Ok(b) && b@ == old(self).remaining_spec().take(n as int)
                    && final(self).remaining_spec() == old(self).remaining_spec().skip(n as int)
                    && final(self).pos() == old(self).pos() + n
            } else {
                r == Err::<Vec<u8>, DeserializeError>(DeserializeError::EOF) && *final(self)
                    == *old(self)
            },
    {
        if n == 0 {
            let out: Vec<u8> = Vec::new();
            proof {
                assert(out@ =~= self.remaining_spec().take(0));
                assert(self.remaining_spec() =~= self.remaining_spec().skip(0));
            }
            return Ok(out);
        }
        if self.pointer > self.buf.len() || n > self.buf.len() - self.pointer {
            return Err(DeserializeError::EOF);
        }
        let out = slice_to_vec(slice_subrange(self.buf.as_slice(), self.pointer, self.pointer + n));
        self.pointer = self.pointer + n;
        proof {
            assert(out@ =~= old(self).remaining_spec().take(n as int));
            assert(self.remaining_spec() =~= old(self).remaining_spec().skip(n as int));
        }
        Ok(out)
    }
}

/// Decodes one frame from the reader.  A complete frame is consumed whole
/// even when its tag or payload is rejected, so the caller can go on to
/// the next frame; when no complete frame is buffered yet the reader is
/// left unmoved and `EOF` is reported.
pub fn read_msg_d(r: &mut VecRead) -> (res: Result<AnyMessage, DeserializeError>)
    ensures
        final(r).buf_spec() == old(r).buf_spec(),
        match spec_decode_frame(old(r).remaining_spec()) {
            FrameResultV::Msg(v, used) => res matches Ok(m) && m@ == v && final(r).pos() == old(
                r,
            ).pos() + used,
            FrameResultV::BadTag(t, used) => res == Err::<AnyMessage, DeserializeError>(
                DeserializeError::WrongMsgType(t),
            ) && final(r).pos() == old(r).pos() + used,
            FrameResultV::Malformed(used) => res == Err::<AnyMessage, DeserializeError>(
                DeserializeError::EOF,
            ) && final(r).pos() == old(r).pos() + used,
            FrameResultV::Truncated => res == Err::<AnyMessage, DeserializeError>(
                DeserializeError::EOF,
            ) && *final(r) == *old(r),
        },
{
    let ghost input = r.remaining_spec();
    let rem = r.remaining();
    if rem < 9 {
        return Err(DeserializeError::EOF);
    }
    let p = r.pointer;
    let blen = r.buf.len();
    proof {
        assert(r.pos() + 9 <= r.buf_spec().len());
        assert(p + 9 <= blen);
    }
    let tag = r.buf[p];
    let len64 = u64_from_le_bytes(slice_subrange(r.buf.as_slice(), p + 1, p + 9));
    proof {
        assert(r.buf@.subrange(p + 1, p + 9 as int) =~= input.subrange(1, 9));
        assert(input[0] == r.buf@[p as int]);
    }
    if len64 > (rem - 9) as u64 {
        return Err(DeserializeError::EOF);
    }
    let len = len64 as usize;
    let content = slice_to_vec(slice_subrange(r.buf.as_slice(), p + 9, p + 9 + len));
    proof {
        assert(content@ =~= input.subrange(9, 9 + len as int));
    }
    r.pointer = p + 9 + len;
    match make_msg_type(tag) {
        Ok(_) => {},
        Err(e) => {
            return Err(e);
        },
    }
    match AnyMessage::from_header_and_content(tag, len64, content) {
        Ok(m) => Ok(m),
        Err(_) => Err(DeserializeError::EOF),
    }
}

} // verus!
