//! A minimal peer-discovery ("tracker") protocol library.
//!
//! Clients connect to a rendezvous server, advertise which files they can
//! serve, and receive live notifications as other peers join, update their
//! file list, or leave.  This crate holds the protocol core: the wire codec
//! (length-prefixed binary frames), the message model (client-origin and
//! server-origin message families), the tracker's peer registry with its
//! broadcast protocol, and the per-session decision logic.  All I/O stays
//! outside; the library works on plain byte buffers and values.

use vstd::prelude::*;

pub mod client;
pub mod deserialize;
pub mod file_server;
pub mod registry;
pub mod serial;
pub mod serialize;
pub mod server;
pub mod session;
pub mod tracker;

pub use deserialize::DeserializeError;
pub use deserialize::make_msg_type;
pub use deserialize::read_msg_d;
pub use deserialize::VecRead;

verus! {

/// The on-wire message type tags.  Each message variant has exactly one
/// type tag (1..=7); the mapping is total and round-trips.
#[derive(Debug, Clone, Copy, PartialEq, Eq, Structural)]
pub enum MsgType {
    Connect,
    UpdateFiles,
    Disconnect,
    RequestFile,
    RegisterPeer,
    UpdatePeer,
    UnregisterPeer,
}

/// The wire tag of each message type: 1=Connect, 2=UpdateFiles,
/// 3=Disconnect, 4=RequestFile, 5=RegisterPeer, 6=UpdatePeer,
/// 7=UnregisterPeer.
pub open spec fn msg_type_tag(t: MsgType) -> u8 {
    match t {
        MsgType::Connect => 1,
        MsgType::UpdateFiles => 2,
        MsgType::Disconnect => 3,
        MsgType::RequestFile => 4,
        MsgType::RegisterPeer => 5,
        MsgType::UpdatePeer => 6,
        MsgType::UnregisterPeer => 7,
    }
}

/// The message type a wire tag stands for, or `None` for a tag outside
/// 1..=7.  Inverse of [`msg_type_tag`].
pub open spec fn spec_type_of_tag(t: u8) -> Option<MsgType> {
    if t == 1 {
        Some(MsgType::Connect)
    } else if t == 2 {
        Some(MsgType::UpdateFiles)
    } else if t == 3 {
        Some(MsgType::Disconnect)
    } else if t == 4 {
        Some(MsgType::RequestFile)
    } else if t == 5 {
        Some(MsgType::RegisterPeer)
    } else if t == 6 {
        Some(MsgType::UpdatePeer)
    } else if t == 7 {
        Some(MsgType::UnregisterPeer)
    } else {
        None
    }
}

/// Tag totality: every message type's tag resolves back to that type,
/// every byte 1..=7 resolves to a type carrying that very tag, and every
/// other byte resolves to nothing.
pub proof fn lemma_tag_round_trip()
    ensures
        forall|t: MsgType| spec_type_of_tag(#[trigger] msg_type_tag(t)) == Some(t),
        forall|b: u8|
            1 <= b <= 7 ==> ((#[trigger] spec_type_of_tag(b)) is Some && msg_type_tag(
                spec_type_of_tag(b)->Some_0,
            ) == b),
        forall|b: u8| !(1 <= b <= 7) ==> (#[trigger] spec_type_of_tag(b)) is None,
{
}

impl MsgType {
    /// The wire tag of this message type.
    pub fn tag(&self) -> (t: u8)
        ensures
            t == msg_type_tag(*self),
    {
        match self {
            MsgType::Connect => 1,
            MsgType::UpdateFiles => 2,
            MsgType::Disconnect => 3,
            MsgType::RequestFile => 4,
            MsgType::RegisterPeer => 5,
            MsgType::UpdatePeer => 6,
            MsgType::UnregisterPeer => 7,
        }
    }
}

/// An advertised file: a path (a plain byte string, as it travels on the
/// wire) and a size in bytes.  Immutable value, copied into every message
/// that advertises a file list.
#[derive(Debug, Clone, PartialEq)]
pub struct File {
    pub path: Vec<u8>,
    pub size: u64,
}

/// The mathematical value of a [`File`].
pub struct FileV {
    pub path: Seq<u8>,
    pub size: u64,
}

impl View for File {
    type V = FileV;

    open spec fn view(&self) -> FileV {
        FileV { path: self.path@, size: self.size }
    }
}

impl DeepView for File {
    type V = FileV;

    open spec fn deep_view(&self) -> FileV {
        self@
    }
}

/// Copies a byte vector.
pub fn clone_bytes(v: &Vec<u8>) -> (r: Vec<u8>)
    ensures
        r@ == v@,
{
    let mut r: Vec<u8> = Vec::new();
    let mut i: usize = 0;
    while i < v.len()
        invariant
            i <= v.len(),
            r@ == v@.take(i as int),
        decreases v.len() - i,
    {
        r.push(v[i]);
        proof {
            assert(v@.take(i + 1 as int) =~= v@.take(i as int).push(v@[i as int]));
        }
        i = i + 1;
    }
    proof {
        assert(v@.take(v@.len() as int) =~= v@);
    }
    r
}

impl File {
    /// Copies this file record.
    pub fn duplicate(&self) -> (r: File)
        ensures
            r@ == self@,
    {
        File { path: clone_bytes(&self.path), size: self.size }
    }
}

/// Copies a file list, preserving order.
pub fn duplicate_files(files: &Vec<File>) -> (r: Vec<File>)
    ensures
        r.deep_view() == files.deep_view(),
{
    let mut r: Vec<File> = Vec::new();
    let mut i: usize = 0;
    while i < files.len()
        invariant
            i <= files.len(),
            r.deep_view() == files.deep_view().take(i as int),
        decreases files.len() - i,
    {
        r.push(files[i].duplicate());
        proof {
            assert(files.deep_view().take(i + 1 as int) =~= files.deep_view().take(
                i as int,
            ).push(files.deep_view()[i as int]));
            assert(r.deep_view() =~= files.deep_view().take(i + 1 as int));
        }
        i = i + 1;
    }
    proof {
        assert(files.deep_view().take(files.deep_view().len() as int) =~= files.deep_view());
    }
    r
}

/// An IPv4 socket address: the address as its 32-bit value (`10.0.0.5` is
/// `0x0A000005`) and a port.
#[derive(Debug, Clone, Copy, PartialEq, Eq, PartialOrd, Ord, Structural, Hash)]
pub struct SockAddr {
    pub ip: u32,
    pub port: u16,
}

/// Any protocol message: one of the client-origin family or one of the
/// server-origin family.
#[derive(Debug, PartialEq)]
pub enum AnyMessage {
    Client(client::Message),
    Server(server::Message),
}

/// The mathematical value of an [`AnyMessage`].
pub enum AnyMsgV {
    Client(client::MessageV),
    Server(server::MessageV),
}

impl View for AnyMessage {
    type V = AnyMsgV;

    open spec fn view(&self) -> AnyMsgV {
        match self {
            AnyMessage::Client(m) => AnyMsgV::Client(m@),
            AnyMessage::Server(m) => AnyMsgV::Server(m@),
        }
    }
}

/// Writes one whole frame onto `stream`: the type byte, the payload
/// length as a little-endian `u64`, then the payload itself.
pub fn write_msg_d<M: serialize::Serialize>(stream: &mut Vec<u8>, msg: &M)
    ensures
        final(stream)@ == old(stream)@ + serial::spec_frame_of(
            serial::spec_msg_type(msg.msg_spec()),
            serial::spec_payload_bytes(msg.msg_spec()),
        ),
{
    let t = msg.msg_type();
    stream.push(t.tag());
    let n = msg.size();
    let mut b = vstd::bytes::u64_to_le_bytes(n as u64);
    stream.append(&mut b);
    msg.write(stream);
    proof {
        assert(stream@ =~= old(stream)@ + serial::spec_frame_of(
            serial::spec_msg_type(msg.msg_spec()),
            serial::spec_payload_bytes(msg.msg_spec()),
        ));
    }
}

} // verus!
