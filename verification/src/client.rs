//! Messages a client can send.

use vstd::prelude::*;

use crate::File;
use crate::FileV;

verus! {

/// Tag 1: open a tracker session, advertising a file list and the port on
/// which this peer serves files.
#[derive(Debug, PartialEq)]
pub struct Connect {
    pub file_list: Vec<File>,
    pub serve_port: u16,
}

/// The mathematical value of a [`Connect`].
pub struct ConnectV {
    pub file_list: Seq<FileV>,
    pub serve_port: u16,
}

impl View for Connect {
    type V = ConnectV;

    open spec fn view(&self) -> ConnectV {
        ConnectV { file_list: self.file_list.deep_view(), serve_port: self.serve_port }
    }
}

/// Tag 2: replace this peer's advertised file list.
#[derive(Debug, PartialEq)]
pub struct UpdateFiles {
    pub file_list: Vec<File>,
}

/// The mathematical value of an [`UpdateFiles`].
pub struct UpdateFilesV {
    pub file_list: Seq<FileV>,
}

impl View for UpdateFiles {
    type V = UpdateFilesV;

    open spec fn view(&self) -> UpdateFilesV {
        UpdateFilesV { file_list: self.file_list.deep_view() }
    }
}

/// Tag 3: leave the tracker.
#[derive(Debug, PartialEq)]
pub struct Disconnect;

/// The mathematical value of a [`Disconnect`].
pub struct DisconnectV;

impl View for Disconnect {
    type V = DisconnectV;

    open spec fn view(&self) -> DisconnectV {
        DisconnectV
    }
}

/// Tag 4: ask a peer directly for the named file.
#[derive(Debug, PartialEq)]
pub struct RequestFile {
    pub file: Vec<u8>,
}

/// The mathematical value of a [`RequestFile`].
pub struct RequestFileV {
    pub file: Seq<u8>,
}

impl View for RequestFile {
    type V = RequestFileV;

    open spec fn view(&self) -> RequestFileV {
        RequestFileV { file: self.file@ }
    }
}

/// A client-origin message.
#[derive(Debug, PartialEq)]
pub enum Message {
    Connect(Connect),
    UpdateFiles(UpdateFiles),
    Disconnect(Disconnect),
    RequestFile(RequestFile),
}

/// The mathematical value of a client-origin [`Message`].
pub enum MessageV {
    Connect(ConnectV),
    UpdateFiles(UpdateFilesV),
    Disconnect(DisconnectV),
    RequestFile(RequestFileV),
}

impl View for Message {
    type V = MessageV;

    open spec fn view(&self) -> MessageV {
        match self {
            Message::Connect(m) => MessageV::Connect(m@),
            Message::UpdateFiles(m) => MessageV::UpdateFiles(m@),
            Message::Disconnect(m) => MessageV::Disconnect(m@),
            Message::RequestFile(m) => MessageV::RequestFile(m@),
        }
    }
}

} // verus!
