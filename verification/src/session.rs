//! Per-connection session decisions for the tracker.
//!
//! One session runs per inbound connection.  The session first waits for
//! exactly one `Connect` message; any other first message is a protocol
//! violation and the connection is dropped without touching the registry.
//! After the handshake the session translates `UpdateFiles` and
//! `Disconnect` into registry operations and rejects everything else —
//! in particular `RequestFile`, which belongs to the direct peer-to-peer
//! file-serving path, not to the tracker.

use vstd::prelude::*;

use crate::client;
use crate::registry;
use crate::registry::addr_in;
use crate::registry::not_addr;
use crate::registry::spec_retain;
use crate::registry::RegistryError;
use crate::AnyMessage;
use crate::AnyMsgV;
use crate::SockAddr;

verus! {

/// Builds the peer record a fresh session is to register, when its first
/// message allows one: exactly the `Connect` messages are accepted.  The
/// peer's listening address is the connection's observed address with
/// the port replaced by the self-reported `serve_port` — the address
/// peers will dial for files, not the ephemeral socket that reached the
/// tracker.
pub fn peer_from_connect(msg: &AnyMessage, observed: SockAddr, conn: u64) -> (r: Option<
    registry::Peer,
>)
    ensures
        match msg@ {
            AnyMsgV::Client(client::MessageV::Connect(c)) => r matches Some(p) && p@
                == registry::PeerV {
                server_addr: SockAddr { ip: observed.ip, port: c.serve_port },
                files: c.file_list,
                conn,
            },
            _ => r is None,
        },
{
    match msg {
        AnyMessage::Client(client::Message::Connect(c)) => Some(
            registry::Peer {
                server_addr: SockAddr { ip: observed.ip, port: c.serve_port },
                files: crate::duplicate_files(&c.file_list),
                conn,
            },
        ),
        _ => None,
    }
}

/// Applies one post-handshake message from the peer at `addr` to the
/// registry.  `Ok(true)` keeps the session, `Ok(false)` ends it after a
/// `Disconnect`; a message the tracker does not serve is rejected
/// without touching the registry, and never aborts the process.
pub fn handle_session_message(ctx: &mut registry::Context, addr: SockAddr, msg: AnyMessage) -> (r:
    Result<bool, RegistryError>)
    requires
        old(ctx).wf(),
    ensures
        final(ctx).wf(),
        match msg@ {
            AnyMsgV::Client(client::MessageV::UpdateFiles(x)) => if addr_in(old(ctx)@, addr) {
                r == Ok::<bool, RegistryError>(true) && final(ctx)@ == Seq::new(
                    old(ctx)@.len(),
                    |i: int|
                        if old(ctx)@[i].server_addr == addr {
                            registry::PeerV {
                                server_addr: addr,
                                files: x.file_list,
                                conn: old(ctx)@[i].conn,
                            }
                        } else {
                            old(ctx)@[i]
                        },
                )
            } else {
                r == Err::<bool, RegistryError>(RegistryError::UnknownPeer) && final(ctx)@ == old(
                    ctx,
                )@
            },
            AnyMsgV::Client(client::MessageV::Disconnect(_)) => if addr_in(old(ctx)@, addr) {
                r == Ok::<bool, RegistryError>(false) && final(ctx)@ == spec_retain(
                    old(ctx)@,
                    not_addr(addr),
                )
            } else {
                r == Err::<bool, RegistryError>(RegistryError::UnknownPeer) && final(ctx)@ == old(
                    ctx,
                )@
            },
            _ => r == Err::<bool, RegistryError>(RegistryError::UnexpectedMessage) && final(ctx)@
                == old(ctx)@,
        },
{
    match msg {
        AnyMessage::Client(client::Message::UpdateFiles(u)) => {
            match ctx.update_peer(addr, u.file_list) {
                Ok(_) => Ok(true),
                Err(e) => Err(e),
            }
        },
        AnyMessage::Client(client::Message::Disconnect(_)) => {
            match ctx.remove_peer(addr) {
                Ok(_) => Ok(false),
                Err(e) => Err(e),
            }
        },
        _ => Err(RegistryError::UnexpectedMessage),
    }
}

} // verus!
