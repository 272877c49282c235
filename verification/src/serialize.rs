//! Writing messages as the three frame components: type, size, payload.

use vstd::prelude::*;

use crate::client;
use crate::serial::spec_msg_type;
use crate::serial::spec_payload_bytes;
use crate::serial::IntoBytes;
use crate::server;
use crate::AnyMessage;
use crate::AnyMsgV;
use crate::MsgType;

verus! {

/// The three separate components of a message's frame: its type, its
/// payload size, and the payload itself, written onto a byte buffer.
pub trait Serialize {
    /// The message value this encodes as.
    spec fn msg_spec(&self) -> AnyMsgV;

    /// The message's wire type.
    fn msg_type(&self) -> (t: MsgType)
        ensures
            t == spec_msg_type(self.msg_spec()),
    ;

    /// The exact payload size in bytes.
    fn size(&self) -> (n: usize)
        ensures
            n == spec_payload_bytes(self.msg_spec()).len(),
    ;

    /// Appends the payload bytes to `out`.
    fn write(&self, out: &mut Vec<u8>)
        ensures
            final(out)@ == old(out)@ + spec_payload_bytes(self.msg_spec()),
    ;
}

/// As [`Serialize`], for the payload structs, whose wire type is fixed.
pub trait SerializeMessage: Sized {
    /// The payload bytes of this value.
    spec fn payload_spec(&self) -> Seq<u8>;

    /// The wire type every value of this payload struct carries.
    spec fn msg_type_spec() -> MsgType;

    /// The message's wire type.
    fn msg_type(&self) -> (t: MsgType)
        ensures
            t == Self::msg_type_spec(),
    ;

    /// The exact payload size in bytes.
    fn size(&self) -> (n: usize)
        ensures
            n == self.payload_spec().len(),
    ;

    /// Appends the payload bytes to `out`.
    fn write(&self, out: &mut Vec<u8>)
        ensures
            final(out)@ == old(out)@ + self.payload_spec(),
    ;
}

impl SerializeMessage for client::Connect {
    open spec fn payload_spec(&self) -> Seq<u8> {
        spec_payload_bytes(AnyMsgV::Client(client::MessageV::Connect(self@)))
    }

    open spec fn msg_type_spec() -> MsgType {
        MsgType::Connect
    }

    fn msg_type(&self) -> MsgType {
        MsgType::Connect
    }

    fn size(&self) -> usize {
        self.into_bytes().len()
    }

    fn write(&self, out: &mut Vec<u8>) {
        let mut b = self.into_bytes();
        out.append(&mut b);
    }
}

impl SerializeMessage for client::UpdateFiles {
    open spec fn payload_spec(&self) -> Seq<u8> {
        spec_payload_bytes(AnyMsgV::Client(client::MessageV::UpdateFiles(self@)))
    }

    open spec fn msg_type_spec() -> MsgType {
        MsgType::UpdateFiles
    }

    fn msg_type(&self) -> MsgType {
        MsgType::UpdateFiles
    }

    fn size(&self) -> usize {
        self.into_bytes().len()
    }

    fn write(&self, out: &mut Vec<u8>) {
        let mut b = self.into_bytes();
        out.append(&mut b);
    }
}

impl SerializeMessage for client::Disconnect {
    open spec fn payload_spec(&self) -> Seq<u8> {
        spec_payload_bytes(AnyMsgV::Client(client::MessageV::Disconnect(self@)))
    }

    open spec fn msg_type_spec() -> MsgType {
        MsgType::Disconnect
    }

    fn msg_type(&self) -> MsgType {
        MsgType::Disconnect
    }

    fn size(&self) -> usize {
        self.into_bytes().len()
    }

    fn write(&self, out: &mut Vec<u8>) {
        let mut b = self.into_bytes();
        out.append(&mut b);
    }
}

impl SerializeMessage for client::RequestFile {
    open spec fn payload_spec(&self) -> Seq<u8> {
        spec_payload_bytes(AnyMsgV::Client(client::MessageV::RequestFile(self@)))
    }

    open spec fn msg_type_spec() -> MsgType {
        MsgType::RequestFile
    }

    fn msg_type(&self) -> MsgType {
        MsgType::RequestFile
    }

    fn size(&self) -> usize {
        self.into_bytes().len()
    }

    fn write(&self, out: &mut Vec<u8>) {
        let mut b = self.into_bytes();
        out.append(&mut b);
    }
}

impl SerializeMessage for server::RegisterPeer {
    open spec fn payload_spec(&self) -> Seq<u8> {
        spec_payload_bytes(AnyMsgV::Server(server::MessageV::RegisterPeer(self@)))
    }

    open spec fn msg_type_spec() -> MsgType {
        MsgType::RegisterPeer
    }

    fn msg_type(&self) -> MsgType {
        MsgType::RegisterPeer
    }

    fn size(&self) -> usize {
        self.into_bytes().len()
    }

    fn write(&self, out: &mut Vec<u8>) {
        let mut b = self.into_bytes();
        out.append(&mut b);
    }
}

impl SerializeMessage for server::UpdatePeer {
    open spec fn payload_spec(&self) -> Seq<u8> {
        spec_payload_bytes(AnyMsgV::Server(server::MessageV::UpdatePeer(self@)))
    }

    open spec fn msg_type_spec() -> MsgType {
        MsgType::UpdatePeer
    }

    fn msg_type(&self) -> MsgType {
        MsgType::UpdatePeer
    }

    fn size(&self) -> usize {
        self.into_bytes().len()
    }

    fn write(&self, out: &mut Vec<u8>) {
        let mut b = self.into_bytes();
        out.append(&mut b);
    }
}

impl SerializeMessage for server::UnregisterPeer {
    open spec fn payload_spec(&self) -> Seq<u8> {
        spec_payload_bytes(AnyMsgV::Server(server::MessageV::UnregisterPeer(self@)))
    }

    open spec fn msg_type_spec() -> MsgType {
        MsgType::UnregisterPeer
    }

    fn msg_type(&self) -> MsgType {
        MsgType::UnregisterPeer
    }

    fn size(&self) -> usize {
        self.into_bytes().len()
    }

    fn write(&self, out: &mut Vec<u8>) {
        let mut b = self.into_bytes();
        out.append(&mut b);
    }
}

impl Serialize for client::Message {
    open spec fn msg_spec(&self) -> AnyMsgV {
        AnyMsgV::Client(self@)
    }

    fn msg_type(&self) -> MsgType {
        match self {
            client::Message::Connect(m) => m.msg_type(),
            client::Message::Disconnect(m) => m.msg_type(),
            client::Message::UpdateFiles(m) => m.msg_type(),
            client::Message::RequestFile(m) => m.msg_type(),
        }
    }

    fn size(&self) -> usize {
        match self {
            client::Message::Connect(m) => m.size(),
            client::Message::Disconnect(m) => m.size(),
            client::Message::UpdateFiles(m) => m.size(),
            client::Message::RequestFile(m) => m.size(),
        }
    }

    fn write(&self, out: &mut Vec<u8>) {
        match self {
            client::Message::Connect(m) => m.write(out),
            client::Message::Disconnect(m) => m.write(out),
            client::Message::UpdateFiles(m) => m.write(out),
            client::Message::RequestFile(m) => m.write(out),
        }
    }
}

impl Serialize for server::Message {
    open spec fn msg_spec(&self) -> AnyMsgV {
        AnyMsgV::Server(self@)
    }

    fn msg_type(&self) -> MsgType {
        match self {
            server::Message::UpdatePeer(m) => m.msg_type(),
            server::Message::RegisterPeer(m) => m.msg_type(),
            server::Message::UnregisterPeer(m) => m.msg_type(),
        }
    }

    fn size(&self) -> usize {
        match self {
            server::Message::UpdatePeer(m) => m.size(),
            server::Message::RegisterPeer(m) => m.size(),
            server::Message::UnregisterPeer(m) => m.size(),
        }
    }

    fn write(&self, out: &mut Vec<u8>) {
        match self {
            server::Message::UpdatePeer(m) => m.write(out),
            server::Message::RegisterPeer(m) => m.write(out),
            server::Message::UnregisterPeer(m) => m.write(out),
        }
    }
}

impl Serialize for AnyMessage {
    open spec fn msg_spec(&self) -> AnyMsgV {
        self@
    }

    fn msg_type(&self) -> MsgType {
        match self {
            AnyMessage::Client(m) => m.msg_type(),
            AnyMessage::Server(m) => m.msg_type(),
        }
    }

    fn size(&self) -> usize {
        match self {
            AnyMessage::Client(m) => m.size(),
            AnyMessage::Server(m) => m.size(),
        }
    }

    fn write(&self, out: &mut Vec<u8>) {
        match self {
            AnyMessage::Client(m) => m.write(out),
            AnyMessage::Server(m) => m.write(out),
        }
    }
}

} // verus!
