//! The wire codec: encoding to and decoding from length-prefixed frames.
//!
//! A frame is `type:u8  length:u64  payload:length bytes`, all integers
//! little-endian.  Payload shapes (tag in parentheses):
//!
//! - `Connect` (1): `serve_port:u16, [ size:u64, path_len:u64, path:path_len ]*`
//! - `UpdateFiles` (2): `[ size:u64, path_len:u64, path:path_len ]*`
//! - `Disconnect` (3): empty
//! - `RequestFile` (4): `path_len:u64, path:path_len`
//! - `RegisterPeer` (5), `UpdatePeer` (6): `ipv4:u32, port:u16, [ size:u64, path_len:u64, path:path_len ]*`
//! - `UnregisterPeer` (7): `ipv4:u32, port:u16`
//!
//! A file list carries no explicit count: it repeats until the payload is
//! exhausted, its length implied by the surrounding frame.  That one
//! convention applies to every variant.

use vstd::bytes::*;
use vstd::prelude::*;
use vstd::slice::*;

use crate::client;
use crate::server;
use crate::AnyMessage;
use crate::AnyMsgV;
use crate::File;
use crate::FileV;
use crate::MsgType;
use crate::SockAddr;
use crate::clone_bytes;
use crate::msg_type_tag;

verus! {

// ------------------------------------------------------------------
// The encoding, as mathematics.
// ------------------------------------------------------------------

/// The wire bytes of one file entry: `size:u64, path_len:u64, path`.
pub open spec fn spec_file_bytes(f: FileV) -> Seq<u8> {
    spec_u64_to_le_bytes(f.size) + spec_u64_to_le_bytes(f.path.len() as u64) + f.path
}

/// The wire bytes of a file list: each entry in order, nothing between.
pub open spec fn spec_files_bytes(fs: Seq<FileV>) -> Seq<u8>
    decreases fs.len(),
{
    if fs.len() == 0 {
        Seq::empty()
    } else {
        spec_file_bytes(fs[0]) + spec_files_bytes(fs.drop_first())
    }
}

/// The payload bytes of a message.
pub open spec fn spec_payload_bytes(m: AnyMsgV) -> Seq<u8> {
    match m {
        AnyMsgV::Client(c) => match c {
            client::MessageV::Connect(x) => spec_u16_to_le_bytes(x.serve_port)
                + spec_files_bytes(x.file_list),
            client::MessageV::UpdateFiles(x) => spec_files_bytes(x.file_list),
            client::MessageV::Disconnect(_) => Seq::empty(),
            client::MessageV::RequestFile(x) => spec_u64_to_le_bytes(x.file.len() as u64)
                + x.file,
        },
        AnyMsgV::Server(s) => match s {
            server::MessageV::RegisterPeer(x) => spec_u32_to_le_bytes(x.sock.ip)
                + spec_u16_to_le_bytes(x.sock.port) + spec_files_bytes(x.file_list),
            server::MessageV::UpdatePeer(x) => spec_u32_to_le_bytes(x.sock.ip)
                + spec_u16_to_le_bytes(x.sock.port) + spec_files_bytes(x.file_list),
            server::MessageV::UnregisterPeer(x) => spec_u32_to_le_bytes(x.sock.ip)
                + spec_u16_to_le_bytes(x.sock.port),
        },
    }
}

/// The message type of a message value.
pub open spec fn spec_msg_type(m: AnyMsgV) -> MsgType {
    match m {
        AnyMsgV::Client(c) => match c {
            client::MessageV::Connect(_) => MsgType::Connect,
            client::MessageV::UpdateFiles(_) => MsgType::UpdateFiles,
            client::MessageV::Disconnect(_) => MsgType::Disconnect,
            client::MessageV::RequestFile(_) => MsgType::RequestFile,
        },
        AnyMsgV::Server(s) => match s {
            server::MessageV::RegisterPeer(_) => MsgType::RegisterPeer,
            server::MessageV::UpdatePeer(_) => MsgType::UpdatePeer,
            server::MessageV::UnregisterPeer(_) => MsgType::UnregisterPeer,
        },
    }
}

/// A whole frame around a given tag and payload:
/// `type:u8, length:u64, payload`.
pub open spec fn spec_frame_of(t: MsgType, payload: Seq<u8>) -> Seq<u8> {
    seq![msg_type_tag(t)] + spec_u64_to_le_bytes(payload.len() as u64) + payload
}

/// The complete wire bytes of a message.
pub open spec fn spec_frame_bytes(m: AnyMsgV) -> Seq<u8> {
    spec_frame_of(spec_msg_type(m), spec_payload_bytes(m))
}

/// Appending one entry to a file list appends its bytes to the encoding.
pub proof fn lemma_files_bytes_push(fs: Seq<FileV>, f: FileV)
    ensures
        spec_files_bytes(fs.push(f)) == spec_files_bytes(fs) + spec_file_bytes(f),
    decreases fs.len(),
{
    if fs.len() == 0 {
        assert(fs.push(f)[0] == f);
        assert(fs.push(f).drop_first() =~= Seq::<FileV>::empty());
        assert(spec_files_bytes(Seq::<FileV>::empty()) == Seq::<u8>::empty());
        assert(spec_files_bytes(fs.push(f)) =~= spec_files_bytes(fs) + spec_file_bytes(f));
    } else {
        assert(fs.push(f).drop_first() =~= fs.drop_first().push(f));
        lemma_files_bytes_push(fs.drop_first(), f);
        assert(spec_files_bytes(fs.push(f)) =~= spec_files_bytes(fs) + spec_file_bytes(f));
    }
}

// ------------------------------------------------------------------
// The decoding, as mathematics.
// ------------------------------------------------------------------

/// Parses file entries from `bytes` at offset `off` up to the end.
/// `None` when a field demands more bytes than remain.
pub open spec fn spec_parse_files_from(bytes: Seq<u8>, off: int) -> Option<Seq<FileV>>
    decreases bytes.len() - off,
{
    if off == bytes.len() {
        Some(Seq::empty())
    } else if off < 0 || off + 16 > bytes.len() {
        None
    } else {
        let size = spec_u64_from_le_bytes(bytes.subrange(off, off + 8));
        let plen = spec_u64_from_le_bytes(bytes.subrange(off + 8, off + 16)) as int;
        if off + 16 + plen > bytes.len() {
            None
        } else {
            match spec_parse_files_from(bytes, off + 16 + plen) {
                Some(rest) => Some(
                    seq![FileV { path: bytes.subrange(off + 16, off + 16 + plen), size }] + rest,
                ),
                None => None,
            }
        }
    }
}

/// Parses a `Connect` payload: `serve_port:u16`, then files to the end.
pub open spec fn spec_parse_connect(p: Seq<u8>) -> Option<client::ConnectV> {
    if p.len() < 2 {
        None
    } else {
        match spec_parse_files_from(p, 2) {
            Some(fs) => Some(
                client::ConnectV {
                    file_list: fs,
                    serve_port: spec_u16_from_le_bytes(p.subrange(0, 2)),
                },
            ),
            None => None,
        }
    }
}

/// Parses an `UpdateFiles` payload: files to the end.
pub open spec fn spec_parse_update_files(p: Seq<u8>) -> Option<client::UpdateFilesV> {
    match spec_parse_files_from(p, 0) {
        Some(fs) => Some(client::UpdateFilesV { file_list: fs }),
        None => None,
    }
}

/// Parses a `RequestFile` payload: `path_len:u64, path`.  Bytes after the
/// path are ignored.
pub open spec fn spec_parse_request_file(p: Seq<u8>) -> Option<client::RequestFileV> {
    if p.len() < 8 {
        None
    } else {
        let plen = spec_u64_from_le_bytes(p.subrange(0, 8)) as int;
        if 8 + plen > p.len() {
            None
        } else {
            Some(client::RequestFileV { file: p.subrange(8, 8 + plen) })
        }
    }
}

/// Parses the `ipv4:u32, port:u16` prefix shared by the server-origin
/// payloads.
pub open spec fn spec_parse_sock(p: Seq<u8>) -> SockAddr
    recommends
        p.len() >= 6,
{
    SockAddr {
        ip: spec_u32_from_le_bytes(p.subrange(0, 4)),
        port: spec_u16_from_le_bytes(p.subrange(4, 6)),
    }
}

/// Parses a `RegisterPeer` payload: address, then files to the end.
pub open spec fn spec_parse_register_peer(p: Seq<u8>) -> Option<server::RegisterPeerV> {
    if p.len() < 6 {
        None
    } else {
        match spec_parse_files_from(p, 6) {
            Some(fs) => Some(
                server::RegisterPeerV { sock: spec_parse_sock(p), file_list: fs },
            ),
            None => None,
        }
    }
}

/// Parses an `UpdatePeer` payload: address, then files to the end.
pub open spec fn spec_parse_update_peer(p: Seq<u8>) -> Option<server::UpdatePeerV> {
    if p.len() < 6 {
        None
    } else {
        match spec_parse_files_from(p, 6) {
            Some(fs) => Some(server::UpdatePeerV { sock: spec_parse_sock(p), file_list: fs }),
            None => None,
        }
    }
}

/// Parses an `UnregisterPeer` payload: address alone.  Bytes after it are
/// ignored.
pub open spec fn spec_parse_unregister_peer(p: Seq<u8>) -> Option<server::UnregisterPeerV> {
    if p.len() < 6 {
        None
    } else {
        Some(server::UnregisterPeerV { sock: spec_parse_sock(p) })
    }
}

/// Parses the payload of a frame with the given message type.  Total over
/// all types: a `Disconnect` payload is ignored whole.
pub open spec fn spec_parse_payload(t: MsgType, p: Seq<u8>) -> Option<AnyMsgV> {
    match t {
        MsgType::Connect => match spec_parse_connect(p) {
            Some(x) => Some(AnyMsgV::Client(client::MessageV::Connect(x))),
            None => None,
        },
        MsgType::UpdateFiles => match spec_parse_update_files(p) {
            Some(x) => Some(AnyMsgV::Client(client::MessageV::UpdateFiles(x))),
            None => None,
        },
        MsgType::Disconnect => Some(
            AnyMsgV::Client(client::MessageV::Disconnect(client::DisconnectV)),
        ),
        MsgType::RequestFile => match spec_parse_request_file(p) {
            Some(x) => Some(AnyMsgV::Client(client::MessageV::RequestFile(x))),
            None => None,
        },
        MsgType::RegisterPeer => match spec_parse_register_peer(p) {
            Some(x) => Some(AnyMsgV::Server(server::MessageV::RegisterPeer(x))),
            None => None,
        },
        MsgType::UpdatePeer => match spec_parse_update_peer(p) {
            Some(x) => Some(AnyMsgV::Server(server::MessageV::UpdatePeer(x))),
            None => None,
        },
        MsgType::UnregisterPeer => match spec_parse_unregister_peer(p) {
            Some(x) => Some(AnyMsgV::Server(server::MessageV::UnregisterPeer(x))),
            None => None,
        },
    }
}

/// What decoding one frame at the front of `input` yields.
pub enum FrameResultV {
    /// A message, and the whole frame's size in bytes.
    Msg(AnyMsgV, int),
    /// The type byte was not 1..=7; the frame is still skipped whole.
    BadTag(u8, int),
    /// The payload did not have the shape its type demands; the frame is
    /// still skipped whole.
    Malformed(int),
    /// Fewer bytes than the header declares: no complete frame yet.
    Truncated,
}

/// Decodes one frame from the front of `input`: reads the 9-byte header,
/// takes exactly `length` payload bytes, and parses the payload from that
/// closed buffer.
pub open spec fn spec_decode_frame(input: Seq<u8>) -> FrameResultV {
    if input.len() < 9 {
        FrameResultV::Truncated
    } else {
        let len = spec_u64_from_le_bytes(input.subrange(1, 9)) as int;
        if 9 + len > input.len() {
            FrameResultV::Truncated
        } else {
            let used = 9 + len;
            let payload = input.subrange(9, used);
            match crate::spec_type_of_tag(input[0]) {
                None => FrameResultV::BadTag(input[0], used),
                Some(t) => match spec_parse_payload(t, payload) {
                    Some(m) => FrameResultV::Msg(m, used),
                    None => FrameResultV::Malformed(used),
                },
            }
        }
    }
}

// ------------------------------------------------------------------
// Executable encoding.
// ------------------------------------------------------------------

/// Appends the little-endian bytes of `x` to `out`.
fn push_u16_le(out: &mut Vec<u8>, x: u16)
    ensures
        final(out)@ == old(out)@ + spec_u16_to_le_bytes(x),
{
    let mut b = u16_to_le_bytes(x);
    out.append(&mut b);
}

/// Appends the little-endian bytes of `x` to `out`.
fn push_u32_le(out: &mut Vec<u8>, x: u32)
    ensures
        final(out)@ == old(out)@ + spec_u32_to_le_bytes(x),
{
    let mut b = u32_to_le_bytes(x);
    out.append(&mut b);
}

/// Appends the little-endian bytes of `x` to `out`.
fn push_u64_le(out: &mut Vec<u8>, x: u64)
    ensures
        final(out)@ == old(out)@ + spec_u64_to_le_bytes(x),
{
    let mut b = u64_to_le_bytes(x);
    out.append(&mut b);
}

/// Appends the encoding of a file list to `out`.
fn write_files(out: &mut Vec<u8>, files: &Vec<File>)
    ensures
        final(out)@ == old(out)@ + spec_files_bytes(files.deep_view()),
{
    let ghost orig = out@;
    let mut i: usize = 0;
    while i < files.len()
        invariant
            i <= files.len(),
            out@ == orig + spec_files_bytes(files.deep_view().take(i as int)),
        decreases files.len() - i,
    {
        let f = &files[i];
        push_u64_le(out, f.size);
        push_u64_le(out, f.path.len() as u64);
        let mut p = clone_bytes(&f.path);
        out.append(&mut p);
        proof {
            assert(files.deep_view().take(i + 1 as int) =~= files.deep_view().take(
                i as int,
            ).push(files[i as int]@));
            lemma_files_bytes_push(files.deep_view().take(i as int), files[i as int]@);
            assert(out@ =~= orig + spec_files_bytes(files.deep_view().take(i + 1 as int)));
        }
        i = i + 1;
    }
    proof {
        assert(files.deep_view().take(files.deep_view().len() as int) =~= files.deep_view());
    }
}

// ------------------------------------------------------------------
// Executable decoding.
// ------------------------------------------------------------------

/// Parses file entries from `bytes` at offset `start` up to the end of the
/// slice, exactly as [`spec_parse_files_from`] describes.
fn parse_file_list(bytes: &[u8], start: usize) -> (r: Result<Vec<File>, ()>)
    requires
        start <= bytes@.len(),
    ensures
        match r {
            Ok(files) => spec_parse_files_from(bytes@, start as int) == Some(files.deep_view()),
            Err(_) => spec_parse_files_from(bytes@, start as int) is None,
        },
{
    let mut files: Vec<File> = Vec::new();
    let mut off: usize = start;
    while off < bytes.len()
        invariant
            start <= off <= bytes@.len(),
            match spec_parse_files_from(bytes@, off as int) {
                Some(rest) => spec_parse_files_from(bytes@, start as int) == Some(
                    files.deep_view() + rest,
                ),
                None => spec_parse_files_from(bytes@, start as int) is None,
            },
        decreases bytes@.len() - off,
    {
        let rem = bytes.len() - off;
        if rem < 16 {
            return Err(());
        }
        let size = u64_from_le_bytes(slice_subrange(bytes, off, off + 8));
        let plen64 = u64_from_le_bytes(slice_subrange(bytes, off + 8, off + 16));
        if plen64 > (rem - 16) as u64 {
            return Err(());
        }
        let plen = plen64 as usize;
        let path = slice_to_vec(slice_subrange(bytes, off + 16, off + 16 + plen));
        let ghost pre = files.deep_view();
        let ghost entry = FileV { path: bytes@.subrange(off + 16, off + 16 + plen as int), size };
        files.push(File { path, size });
        proof {
            assert(files.deep_view() =~= pre.push(entry));
            match spec_parse_files_from(bytes@, off + 16 + plen as int) {
                Some(rest) => {
                    assert(spec_parse_files_from(bytes@, off as int) == Some(
                        seq![entry] + rest,
                    ));
                    assert(pre + (seq![entry] + rest) =~= pre.push(entry) + rest);
                },
                None => {},
            }
        }
        off = off + 16 + plen;
    }
    proof {
        assert(spec_parse_files_from(bytes@, off as int) == Some(Seq::<FileV>::empty()));
        assert(files.deep_view() + Seq::<FileV>::empty() =~= files.deep_view());
    }
    Ok(files)
}

impl client::Connect {
    /// Decodes a `Connect` payload.
    pub fn from_bytes(bytes: &[u8]) -> (r: Result<client::Connect, ()>)
        ensures
            match r {
                Ok(m) => spec_parse_connect(bytes@) == Some(m@),
                Err(_) => spec_parse_connect(bytes@) is None,
            },
    {
        if bytes.len() < 2 {
            return Err(());
        }
        let serve_port = u16_from_le_bytes(slice_subrange(bytes, 0, 2));
        match parse_file_list(bytes, 2) {
            Ok(file_list) => Ok(client::Connect { file_list, serve_port }),
            Err(_) => Err(()),
        }
    }
}

impl client::UpdateFiles {
    /// Decodes an `UpdateFiles` payload.
    pub fn from_bytes(bytes: &[u8]) -> (r: Result<client::UpdateFiles, ()>)
        ensures
            match r {
                Ok(m) => spec_parse_update_files(bytes@) == Some(m@),
                Err(_) => spec_parse_update_files(bytes@) is None,
            },
    {
        match parse_file_list(bytes, 0) {
            Ok(file_list) => Ok(client::UpdateFiles { file_list }),
            Err(_) => Err(()),
        }
    }
}

impl client::RequestFile {
    /// Decodes a `RequestFile` payload.
    pub fn from_bytes(bytes: &[u8]) -> (r: Result<client::RequestFile, ()>)
        ensures
            match r {
                Ok(m) => spec_parse_request_file(bytes@) == Some(m@),
                Err(_) => spec_parse_request_file(bytes@) is None,
            },
    {
        if bytes.len() < 8 {
            return Err(());
        }
        let plen64 = u64_from_le_bytes(slice_subrange(bytes, 0, 8));
        if plen64 > (bytes.len() - 8) as u64 {
            return Err(());
        }
        let plen = plen64 as usize;
        let file = slice_to_vec(slice_subrange(bytes, 8, 8 + plen));
        Ok(client::RequestFile { file })
    }
}

/// Decodes the `ipv4:u32, port:u16` prefix of a server-origin payload.
fn parse_sock(bytes: &[u8]) -> (r: SockAddr)
    requires
        bytes@.len() >= 6,
    ensures
        r == spec_parse_sock(bytes@),
{
    let ip = u32_from_le_bytes(slice_subrange(bytes, 0, 4));
    let port = u16_from_le_bytes(slice_subrange(bytes, 4, 6));
    SockAddr { ip, port }
}

impl server::RegisterPeer {
    /// Decodes a `RegisterPeer` payload.
    pub fn from_bytes(bytes: &[u8]) -> (r: Result<server::RegisterPeer, ()>)
        ensures
            match r {
                Ok(m) => spec_parse_register_peer(bytes@) == Some(m@),
                Err(_) => spec_parse_register_peer(bytes@) is None,
            },
    {
        if bytes.len() < 6 {
            return Err(());
        }
        let sock = parse_sock(bytes);
        match parse_file_list(bytes, 6) {
            Ok(file_list) => Ok(server::RegisterPeer { sock, file_list }),
            Err(_) => Err(()),
        }
    }
}

impl server::UpdatePeer {
    /// Decodes an `UpdatePeer` payload.
    pub fn from_bytes(bytes: &[u8]) -> (r: Result<server::UpdatePeer, ()>)
        ensures
            match r {
                Ok(m) => spec_parse_update_peer(bytes@) == Some(m@),
                Err(_) => spec_parse_update_peer(bytes@) is None,
            },
    {
        if bytes.len() < 6 {
            return Err(());
        }
        let sock = parse_sock(bytes);
        match parse_file_list(bytes, 6) {
            Ok(file_list) => Ok(server::UpdatePeer { sock, file_list }),
            Err(_) => Err(()),
        }
    }
}

impl server::UnregisterPeer {
    /// Decodes an `UnregisterPeer` payload.
    pub fn from_bytes(bytes: &[u8]) -> (r: Result<server::UnregisterPeer, ()>)
        ensures
            match r {
                Ok(m) => spec_parse_unregister_peer(bytes@) == Some(m@),
                Err(_) => spec_parse_unregister_peer(bytes@) is None,
            },
    {
        if bytes.len() < 6 {
            return Err(());
        }
        let sock = parse_sock(bytes);
        Ok(server::UnregisterPeer { sock })
    }
}

// ------------------------------------------------------------------
// Raw frames.
// ------------------------------------------------------------------

/// A frame split into its resolved message type and its payload bytes.
#[derive(Debug)]
pub struct RawMessage {
    msg_type: MsgType,
    content: Vec<u8>,
}

/// The mathematical value of a [`RawMessage`].
pub struct RawMsgV {
    pub msg_type: MsgType,
    pub content: Seq<u8>,
}

impl View for RawMessage {
    type V = RawMsgV;

    closed spec fn view(&self) -> RawMsgV {
        RawMsgV { msg_type: self.msg_type, content: self.content@ }
    }
}

impl RawMessage {
    /// Splits a complete frame into tag and payload.  The caller must hand
    /// over exactly one whole frame: at least the 9-byte header, and a
    /// declared length that matches the bytes present.
    pub fn from_bytes(bytes: &[u8]) -> (r: Result<RawMessage, ()>)
        requires
            bytes@.len() >= 9,
            9 + spec_u64_from_le_bytes(bytes@.subrange(1, 9)) == bytes@.len(),
        ensures
            match r {
                Ok(raw) => crate::spec_type_of_tag(bytes@[0]) == Some(raw@.msg_type)
                    && raw@.content == bytes@.subrange(9, bytes@.len() as int),
                Err(_) => crate::spec_type_of_tag(bytes@[0]) is None,
            },
    {
        let tag = *slice_index_get(bytes, 0);
        let msg_type = match crate::deserialize::make_msg_type(tag) {
            Ok(t) => t,
            Err(_) => {
                return Err(());
            },
        };
        let content = slice_to_vec(slice_subrange(bytes, 9, bytes.len()));
        Ok(RawMessage { msg_type, content })
    }
}

/// Decoding from a raw frame.
pub trait FromRaw: Sized {
    type Error;

    /// What a successful decoding of `raw` must be.
    spec fn from_raw_ok(raw: RawMsgV, r: Self) -> bool;

    /// When decoding of `raw` must fail.
    spec fn from_raw_err(raw: RawMsgV) -> bool;

    /// Decodes the payload of `raw` according to its message type.
    fn try_from_raw(raw: RawMessage) -> (r: Result<Self, Self::Error>)
        ensures
            match r {
                Ok(m) => Self::from_raw_ok(raw@, m),
                Err(_) => Self::from_raw_err(raw@),
            },
    ;
}

impl FromRaw for AnyMessage {
    type Error = ();

    open spec fn from_raw_ok(raw: RawMsgV, r: AnyMessage) -> bool {
        spec_parse_payload(raw.msg_type, raw.content) == Some(r@)
    }

    open spec fn from_raw_err(raw: RawMsgV) -> bool {
        spec_parse_payload(raw.msg_type, raw.content) is None
    }

    fn try_from_raw(raw: RawMessage) -> (r: Result<AnyMessage, ()>) {
        let content = raw.content;
        match raw.msg_type {
            MsgType::Connect => match client::Connect::from_bytes(content.as_slice()) {
                Ok(m) => Ok(AnyMessage::Client(client::Message::Connect(m))),
                Err(_) => Err(()),
            },
            MsgType::UpdateFiles => match client::UpdateFiles::from_bytes(content.as_slice()) {
                Ok(m) => Ok(AnyMessage::Client(client::Message::UpdateFiles(m))),
                Err(_) => Err(()),
            },
            MsgType::Disconnect => Ok(
                AnyMessage::Client(client::Message::Disconnect(client::Disconnect)),
            ),
            MsgType::RequestFile => match client::RequestFile::from_bytes(content.as_slice()) {
                Ok(m) => Ok(AnyMessage::Client(client::Message::RequestFile(m))),
                Err(_) => Err(()),
            },
            MsgType::RegisterPeer => match server::RegisterPeer::from_bytes(content.as_slice()) {
                Ok(m) => Ok(AnyMessage::Server(server::Message::RegisterPeer(m))),
                Err(_) => Err(()),
            },
            MsgType::UpdatePeer => match server::UpdatePeer::from_bytes(content.as_slice()) {
                Ok(m) => Ok(AnyMessage::Server(server::Message::UpdatePeer(m))),
                Err(_) => Err(()),
            },
            MsgType::UnregisterPeer => match server::UnregisterPeer::from_bytes(
                content.as_slice(),
            ) {
                Ok(m) => Ok(AnyMessage::Server(server::Message::UnregisterPeer(m))),
                Err(_) => Err(()),
            },
        }
    }
}

impl AnyMessage {
    /// Decodes a message from exactly one whole frame.
    pub fn from_bytes(bytes: &[u8]) -> (r: Result<AnyMessage, ()>)
        requires
            bytes@.len() >= 9,
            9 + spec_u64_from_le_bytes(bytes@.subrange(1, 9)) == bytes@.len(),
        ensures
            match spec_decode_frame(bytes@) {
                FrameResultV::Msg(v, used) => r matches Ok(m) && m@ == v,
                _ => r is Err,
            },
            !(spec_decode_frame(bytes@) is Truncated),
    {
        let raw = match RawMessage::from_bytes(bytes) {
            Ok(raw) => raw,
            Err(_) => {
                return Err(());
            },
        };
        match AnyMessage::try_from_raw(raw) {
            Ok(m) => Ok(m),
            Err(_) => Err(()),
        }
    }

    /// Rebuilds a message from a frame already split into its header
    /// fields and payload.  `content_size` must be the length of
    /// `content`, as a well-formed frame header declares it.
    pub fn from_header_and_content(msg_type: u8, content_size: u64, content: Vec<u8>) -> (r:
        Result<AnyMessage, ()>)
        requires
            content_size == content@.len(),
        ensures
            match crate::spec_type_of_tag(msg_type) {
                Some(t) => match spec_parse_payload(t, content@) {
                    Some(v) => r matches Ok(m) && m@ == v,
                    None => r is Err,
                },
                None => r is Err,
            },
    {
        let msg_type = match crate::deserialize::make_msg_type(msg_type) {
            Ok(t) => t,
            Err(_) => {
                return Err(());
            },
        };
        match AnyMessage::try_from_raw(RawMessage { msg_type, content }) {
            Ok(m) => Ok(m),
            Err(_) => Err(()),
        }
    }
}

// ------------------------------------------------------------------
// The `IntoBytes` trait.
// ------------------------------------------------------------------

/// Encoding to a byte vector.  For the payload structs the bytes are the
/// payload alone; for the message enums they are the whole frame.
pub trait IntoBytes {
    /// The bytes this value encodes to.
    spec fn bytes_spec(&self) -> Seq<u8>;

    /// Encodes this value.
    fn into_bytes(&self) -> (r: Vec<u8>)
        ensures
            r@ == self.bytes_spec(),
    ;
}

impl IntoBytes for client::Connect {
    open spec fn bytes_spec(&self) -> Seq<u8> {
        spec_payload_bytes(AnyMsgV::Client(client::MessageV::Connect(self@)))
    }

    fn into_bytes(&self) -> (r: Vec<u8>) {
        let mut out: Vec<u8> = Vec::new();
        push_u16_le(&mut out, self.serve_port);
        write_files(&mut out, &self.file_list);
        out
    }
}

impl IntoBytes for client::UpdateFiles {
    open spec fn bytes_spec(&self) -> Seq<u8> {
        spec_payload_bytes(AnyMsgV::Client(client::MessageV::UpdateFiles(self@)))
    }

    fn into_bytes(&self) -> (r: Vec<u8>) {
        let mut out: Vec<u8> = Vec::new();
        write_files(&mut out, &self.file_list);
        proof {
            assert(out@ =~= self.bytes_spec());
        }
        out
    }
}

impl IntoBytes for client::Disconnect {
    open spec fn bytes_spec(&self) -> Seq<u8> {
        spec_payload_bytes(AnyMsgV::Client(client::MessageV::Disconnect(self@)))
    }

    fn into_bytes(&self) -> (r: Vec<u8>) {
        let out: Vec<u8> = Vec::new();
        proof {
            assert(out@ =~= self.bytes_spec());
        }
        out
    }
}

impl IntoBytes for client::RequestFile {
    open spec fn bytes_spec(&self) -> Seq<u8> {
        spec_payload_bytes(AnyMsgV::Client(client::MessageV::RequestFile(self@)))
    }

    fn into_bytes(&self) -> (r: Vec<u8>) {
        let mut out: Vec<u8> = Vec::new();
        push_u64_le(&mut out, self.file.len() as u64);
        let mut p = clone_bytes(&self.file);
        out.append(&mut p);
        out
    }
}

impl IntoBytes for server::RegisterPeer {
    open spec fn bytes_spec(&self) -> Seq<u8> {
        spec_payload_bytes(AnyMsgV::Server(server::MessageV::RegisterPeer(self@)))
    }

    fn into_bytes(&self) -> (r: Vec<u8>) {
        let mut out: Vec<u8> = Vec::new();
        push_u32_le(&mut out, self.sock.ip);
        push_u16_le(&mut out, self.sock.port);
        write_files(&mut out, &self.file_list);
        out
    }
}

impl IntoBytes for server::UpdatePeer {
    open spec fn bytes_spec(&self) -> Seq<u8> {
        spec_payload_bytes(AnyMsgV::Server(server::MessageV::UpdatePeer(self@)))
    }

    fn into_bytes(&self) -> (r: Vec<u8>) {
        let mut out: Vec<u8> = Vec::new();
        push_u32_le(&mut out, self.sock.ip);
        push_u16_le(&mut out, self.sock.port);
        write_files(&mut out, &self.file_list);
        out
    }
}

impl IntoBytes for server::UnregisterPeer {
    open spec fn bytes_spec(&self) -> Seq<u8> {
        spec_payload_bytes(AnyMsgV::Server(server::MessageV::UnregisterPeer(self@)))
    }

    fn into_bytes(&self) -> (r: Vec<u8>) {
        let mut out: Vec<u8> = Vec::new();
        push_u32_le(&mut out, self.sock.ip);
        push_u16_le(&mut out, self.sock.port);
        proof {
            assert(out@ =~= self.bytes_spec());
        }
        out
    }
}

impl IntoBytes for client::Message {
    open spec fn bytes_spec(&self) -> Seq<u8> {
        spec_frame_bytes(AnyMsgV::Client(self@))
    }

    fn into_bytes(&self) -> (r: Vec<u8>) {
        let mut out: Vec<u8> = Vec::new();
        crate::write_msg_d(&mut out, self);
        proof {
            assert(out@ =~= self.bytes_spec());
        }
        out
    }
}

impl IntoBytes for server::Message {
    open spec fn bytes_spec(&self) -> Seq<u8> {
        spec_frame_bytes(AnyMsgV::Server(self@))
    }

    fn into_bytes(&self) -> (r: Vec<u8>) {
        let mut out: Vec<u8> = Vec::new();
        crate::write_msg_d(&mut out, self);
        proof {
            assert(out@ =~= self.bytes_spec());
        }
        out
    }
}

impl IntoBytes for AnyMessage {
    open spec fn bytes_spec(&self) -> Seq<u8> {
        spec_frame_bytes(self@)
    }

    fn into_bytes(&self) -> (r: Vec<u8>) {
        let mut out: Vec<u8> = Vec::new();
        crate::write_msg_d(&mut out, self);
        proof {
            assert(out@ =~= self.bytes_spec());
        }
        out
    }
}

// ------------------------------------------------------------------
// The round trip.
// ------------------------------------------------------------------

/// A file value whose path length fits the wire's `u64` length field.
/// Every file held in a `Vec<u8>` satisfies this.
pub open spec fn wf_file(f: FileV) -> bool {
    f.path.len() <= u64::MAX
}

/// Every file in the list is well formed.
pub open spec fn wf_files(fs: Seq<FileV>) -> bool {
    forall|i: int| 0 <= i < fs.len() ==> wf_file(#[trigger] fs[i])
}

/// A message value whose variable-length parts fit the wire's `u64`
/// length fields.  Any message whose encoded payload exists as a byte
/// vector satisfies this.
pub open spec fn wf_msg(m: AnyMsgV) -> bool {
    &&& spec_payload_bytes(m).len() <= u64::MAX
    &&& match m {
        AnyMsgV::Client(c) => match c {
            client::MessageV::Connect(x) => wf_files(x.file_list),
            client::MessageV::UpdateFiles(x) => wf_files(x.file_list),
            client::MessageV::Disconnect(_) => true,
            client::MessageV::RequestFile(x) => x.file.len() <= u64::MAX,
        },
        AnyMsgV::Server(s) => match s {
            server::MessageV::RegisterPeer(x) => wf_files(x.file_list),
            server::MessageV::UpdatePeer(x) => wf_files(x.file_list),
            server::MessageV::UnregisterPeer(_) => true,
        },
    }
}

/// A subrange taken at an offset into `s` is the same subrange of the
/// tail of `s` that starts at that offset.
proof fn lemma_chunk(s: Seq<u8>, off: int, a: int, b: int)
    requires
        0 <= off,
        0 <= a <= b,
        off + b <= s.len(),
    ensures
        s.subrange(off + a, off + b) == s.subrange(off, s.len() as int).subrange(a, b),
{
    assert forall|i: int| 0 <= i < b - a implies s.subrange(off + a, off + b)[i] == s.subrange(
        off,
        s.len() as int,
    ).subrange(a, b)[i] by {
        assert(s.subrange(off + a, off + b)[i] == s[off + a + i]);
        assert(s.subrange(off, s.len() as int).subrange(a, b)[i] == s.subrange(
            off,
            s.len() as int,
        )[a + i]);
        assert(s.subrange(off, s.len() as int)[a + i] == s[off + (a + i)]);
    }
    assert(s.subrange(off + a, off + b) =~= s.subrange(off, s.len() as int).subrange(a, b));
}

/// Parsing an encoded file list from wherever it starts recovers exactly
/// the list that was encoded.
pub proof fn lemma_parse_files_round_trip(s: Seq<u8>, off: int, fs: Seq<FileV>)
    requires
        0 <= off <= s.len(),
        s.subrange(off, s.len() as int) == spec_files_bytes(fs),
        wf_files(fs),
    ensures
        spec_parse_files_from(s, off) == Some(fs),
    decreases fs.len(),
{
    lemma_auto_spec_u64_to_from_le_bytes();
    if fs.len() == 0 {
        assert(s.subrange(off, s.len() as int).len() == 0);
        assert(off == s.len());
        assert(fs =~= Seq::<FileV>::empty());
    } else {
        let f = fs[0];
        let rest = fs.drop_first();
        let plen = f.path.len() as int;
        assert(wf_file(f));
        let w = spec_file_bytes(fs[0]) + spec_files_bytes(fs.drop_first());
        assert(spec_files_bytes(fs) == w);
        assert(spec_file_bytes(f).len() == 16 + plen);
        assert(s.len() - off == 16 + plen + spec_files_bytes(rest).len());
        lemma_chunk(s, off, 0, 8);
        lemma_chunk(s, off, 8, 16);
        lemma_chunk(s, off, 16, 16 + plen);
        lemma_chunk(s, off, 16 + plen, s.len() - off);
        assert(w.subrange(0, 8) =~= spec_u64_to_le_bytes(f.size));
        assert(w.subrange(8, 16) =~= spec_u64_to_le_bytes(f.path.len() as u64));
        assert(w.subrange(16, 16 + plen) =~= f.path);
        assert(w.subrange(16 + plen, w.len() as int) =~= spec_files_bytes(rest));
        assert(spec_u64_from_le_bytes(s.subrange(off, off + 8)) == f.size);
        assert(spec_u64_from_le_bytes(s.subrange(off + 8, off + 16)) == f.path.len() as u64);
        assert(s.subrange(off + 16, off + 16 + plen) == f.path);
        assert(s.subrange(off + 16 + plen, s.len() as int) == spec_files_bytes(rest));
        assert(wf_files(rest)) by {
            assert(forall|i: int|
                0 <= i < rest.len() ==> rest[i] == fs[i + 1] && wf_file(#[trigger] rest[i]));
        }
        lemma_parse_files_round_trip(s, off + 16 + plen, rest);
        assert(FileV { path: s.subrange(off + 16, off + 16 + plen), size: f.size } == f);
        assert(seq![f] + rest =~= fs);
        assert(spec_parse_files_from(s, off) == Some(fs));
    }
}

/// Parsing the encoded payload of any well-formed message under its own
/// type recovers exactly that message.
pub proof fn lemma_parse_payload_round_trip(m: AnyMsgV)
    requires
        wf_msg(m),
    ensures
        spec_parse_payload(spec_msg_type(m), spec_payload_bytes(m)) == Some(m),
{
    lemma_auto_spec_u16_to_from_le_bytes();
    lemma_auto_spec_u32_to_from_le_bytes();
    lemma_auto_spec_u64_to_from_le_bytes();
    let p = spec_payload_bytes(m);
    match m {
        AnyMsgV::Client(c) => match c {
            client::MessageV::Connect(x) => {
                assert(p.subrange(0, 2) =~= spec_u16_to_le_bytes(x.serve_port));
                assert(p.subrange(2, p.len() as int) =~= spec_files_bytes(x.file_list));
                lemma_parse_files_round_trip(p, 2, x.file_list);
                assert(spec_parse_connect(p) == Some(
                    client::ConnectV { file_list: x.file_list, serve_port: x.serve_port },
                ));
            },
            client::MessageV::UpdateFiles(x) => {
                assert(p.subrange(0, p.len() as int) =~= spec_files_bytes(x.file_list));
                lemma_parse_files_round_trip(p, 0, x.file_list);
            },
            client::MessageV::Disconnect(_) => {},
            client::MessageV::RequestFile(x) => {
                assert(p.subrange(0, 8) =~= spec_u64_to_le_bytes(x.file.len() as u64));
                assert(spec_u64_from_le_bytes(p.subrange(0, 8)) == x.file.len() as u64);
                assert(p.subrange(8, 8 + x.file.len() as int) =~= x.file);
            },
        },
        AnyMsgV::Server(s) => match s {
            server::MessageV::RegisterPeer(x) => {
                assert(p.subrange(0, 4) =~= spec_u32_to_le_bytes(x.sock.ip));
                assert(p.subrange(4, 6) =~= spec_u16_to_le_bytes(x.sock.port));
                assert(p.subrange(6, p.len() as int) =~= spec_files_bytes(x.file_list));
                lemma_parse_files_round_trip(p, 6, x.file_list);
                assert(spec_parse_sock(p) == x.sock);
            },
            server::MessageV::UpdatePeer(x) => {
                assert(p.subrange(0, 4) =~= spec_u32_to_le_bytes(x.sock.ip));
                assert(p.subrange(4, 6) =~= spec_u16_to_le_bytes(x.sock.port));
                assert(p.subrange(6, p.len() as int) =~= spec_files_bytes(x.file_list));
                lemma_parse_files_round_trip(p, 6, x.file_list);
                assert(spec_parse_sock(p) == x.sock);
            },
            server::MessageV::UnregisterPeer(x) => {
                assert(p.subrange(0, 4) =~= spec_u32_to_le_bytes(x.sock.ip));
                assert(p.subrange(4, 6) =~= spec_u16_to_le_bytes(x.sock.port));
                assert(spec_parse_sock(p) == x.sock);
            },
        },
    }
}

/// Round trip: decoding the encoded frame of any well-formed message
/// yields exactly that message, whatever its variant and whatever its
/// file list — empty, long, or holding non-ASCII path bytes.
pub proof fn lemma_round_trip(m: AnyMsgV)
    requires
        wf_msg(m),
    ensures
        spec_decode_frame(spec_frame_bytes(m)) == FrameResultV::Msg(
            m,
            spec_frame_bytes(m).len() as int,
        ),
{
    lemma_auto_spec_u64_to_from_le_bytes();
    let p = spec_payload_bytes(m);
    let t = spec_msg_type(m);
    let frame = spec_frame_bytes(m);
    assert(frame.len() == 9 + p.len());
    assert(frame.subrange(1, 9) =~= spec_u64_to_le_bytes(p.len() as u64));
    assert(spec_u64_from_le_bytes(frame.subrange(1, 9)) == p.len() as u64);
    assert(frame[0] == msg_type_tag(t));
    assert(crate::spec_type_of_tag(msg_type_tag(t)) == Some(t));
    assert(frame.subrange(9, frame.len() as int) =~= p);
    lemma_parse_payload_round_trip(m);
}

} // verus!
