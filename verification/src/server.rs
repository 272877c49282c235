//! Messages a server can send.

use vstd::prelude::*;

use crate::File;
use crate::FileV;
use crate::SockAddr;

verus! {

/// Tag 5: a peer joined; its listening address and advertised file list.
#[derive(Debug, PartialEq)]
pub struct RegisterPeer {
    pub sock: SockAddr,
    pub file_list: Vec<File>,
}

/// The mathematical value of a [`RegisterPeer`].
pub struct RegisterPeerV {
    pub sock: SockAddr,
    pub file_list: Seq<FileV>,
}

impl View for RegisterPeer {
    type V = RegisterPeerV;

    open spec fn view(&self) -> RegisterPeerV {
        RegisterPeerV { sock: self.sock, file_list: self.file_list.deep_view() }
    }
}

/// Tag 6: a peer replaced its advertised file list.
#[derive(Debug, PartialEq)]
pub struct UpdatePeer {
    pub sock: SockAddr,
    pub file_list: Vec<File>,
}

/// The mathematical value of an [`UpdatePeer`].
pub struct UpdatePeerV {
    pub sock: SockAddr,
    pub file_list: Seq<FileV>,
}

impl View for UpdatePeer {
    type V = UpdatePeerV;

    open spec fn view(&self) -> UpdatePeerV {
        UpdatePeerV { sock: self.sock, file_list: self.file_list.deep_view() }
    }
}

/// Tag 7: a peer left.
#[derive(Debug, PartialEq)]
pub struct UnregisterPeer {
    pub sock: SockAddr,
}

/// The mathematical value of an [`UnregisterPeer`].
pub struct UnregisterPeerV {
    pub sock: SockAddr,
}

impl View for UnregisterPeer {
    type V = UnregisterPeerV;

    open spec fn view(&self) -> UnregisterPeerV {
        UnregisterPeerV { sock: self.sock }
    }
}

/// A server-origin message.
#[derive(Debug, PartialEq)]
pub enum Message {
    RegisterPeer(RegisterPeer),
    UpdatePeer(UpdatePeer),
    UnregisterPeer(UnregisterPeer),
}

/// The mathematical value of a server-origin [`Message`].
pub enum MessageV {
    RegisterPeer(RegisterPeerV),
    UpdatePeer(UpdatePeerV),
    UnregisterPeer(UnregisterPeerV),
}

impl View for Message {
    type V = MessageV;

    open spec fn view(&self) -> MessageV {
        match self {
            Message::RegisterPeer(m) => MessageV::RegisterPeer(m@),
            Message::UpdatePeer(m) => MessageV::UpdatePeer(m@),
            Message::UnregisterPeer(m) => MessageV::UnregisterPeer(m@),
        }
    }
}

} // verus!
