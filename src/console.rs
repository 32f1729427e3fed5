//! The console's decisions: one operator line, applied to the registry, gives
//! the socket work to carry out. Only the registry's owner calls this; it then
//! performs the returned action and reports outcomes back to the registry
//! (`register`, `sweep`, `evict_failed`).
use vstd::prelude::*;
use crate::command::{parses_to, read_command, Command, CommandError};
use crate::registry::{first_peer, Connection, Registry};

verus! {

/// The socket work that a command leaves to the registry's owner.
pub enum ConsoleAction<H> {
    /// Shut these connections (all that were registered) and stop.
    Exit(Vec<Connection<H>>),
    /// Shut this connection, already taken out of the registry.
    Shut(Connection<H>),
    /// No registered connection has this peer.
    NoSuchPeer { ip: String, port: u16 },
    /// Open a connection to this peer, then register it.
    Connect { ip: String, port: u16 },
    /// Probe every registered connection, print it, then sweep the dead ones.
    List,
    /// Send the file at `path` in a frame to the connection at `index`.
    SendFile { path: String, index: usize },
    /// Write the text to every registered connection, then evict those that
    /// failed.
    Broadcast(String),
    /// There is no connection to broadcast to.
    NoClients,
    /// The line gives no command.
    Ignored(CommandError),
}

/// What applying `cmd` to the registry `before` does: the registry after, and
/// the action returned.
pub open spec fn applies<H>(
    before: Seq<Connection<H>>,
    cmd: Command,
    after: Seq<Connection<H>>,
    r: ConsoleAction<H>,
) -> bool {
    match cmd {
        Command::Exit => {
            &&& after.len() == 0
            &&& r matches ConsoleAction::Exit(v)
            &&& r->Exit_0@ == before
        },
        Command::Disconnect { ip, port } => match first_peer(before, ip@, port) {
            Some(i) => {
                &&& after == before.remove(i)
                &&& r matches ConsoleAction::Shut(c)
                &&& r->Shut_0 == before[i]
            },
            None => {
                &&& after == before
                &&& r matches ConsoleAction::NoSuchPeer { .. }
                &&& r->NoSuchPeer_ip@ == ip@
                &&& r->NoSuchPeer_port == port
            },
        },
        Command::ConnectOutbound { ip, port } => {
            &&& after == before
            &&& r matches ConsoleAction::Connect { .. }
            &&& r->Connect_ip@ == ip@
            &&& r->Connect_port == port
        },
        Command::ListConnections => {
            &&& after == before
            &&& r matches ConsoleAction::List
        },
        Command::SendFile { path, ip, port } => {
            &&& after == before
            &&& match first_peer(before, ip@, port) {
                Some(i) => {
                    &&& r matches ConsoleAction::SendFile { .. }
                    &&& r->SendFile_path@ == path@
                    &&& r->SendFile_index == i
                },
                None => {
                    &&& r matches ConsoleAction::NoSuchPeer { .. }
                    &&& r->NoSuchPeer_ip@ == ip@
                    &&& r->NoSuchPeer_port == port
                },
            }
        },
        Command::Broadcast(t) => {
            &&& after == before
            &&& if before.len() == 0 {
                r matches ConsoleAction::NoClients
            } else {
                &&& r matches ConsoleAction::Broadcast(b)
                &&& r->Broadcast_0@ == t@
            }
        },
    }
}

/// Applies a parsed command to the registry.
pub fn apply_command<H>(reg: &mut Registry<H>, cmd: Command) -> (r: ConsoleAction<H>)
    ensures
        applies(old(reg)@, cmd, final(reg)@, r),
{
    match cmd {
        Command::Exit => ConsoleAction::Exit(reg.take_all()),
        Command::Disconnect { ip, port } => match reg.disconnect(ip.as_str(), port) {
            Some(c) => ConsoleAction::Shut(c),
            None => ConsoleAction::NoSuchPeer { ip, port },
        },
        Command::ConnectOutbound { ip, port } => ConsoleAction::Connect { ip, port },
        Command::ListConnections => ConsoleAction::List,
        Command::SendFile { path, ip, port } => match reg.position_of(ip.as_str(), port) {
            Some(index) => ConsoleAction::SendFile { path, index },
            None => ConsoleAction::NoSuchPeer { ip, port },
        },
        Command::Broadcast(text) => {
            if reg.len() == 0 {
                ConsoleAction::NoClients
            } else {
                ConsoleAction::Broadcast(text)
            }
        },
    }
}

/// Reads an operator line and applies it; a line that gives no command leaves
/// the registry as it is.
pub fn handle_line<H>(reg: &mut Registry<H>, raw: &str) -> (r: ConsoleAction<H>)
    ensures
        exists|p: Result<Command, CommandError>|
            parses_to(crate::text::trimmed(raw@), p) && match p {
                Ok(cmd) => applies(old(reg)@, cmd, final(reg)@, r),
                Err(e) => {
                    &&& final(reg)@ == old(reg)@
                    &&& r matches ConsoleAction::Ignored(x)
                    &&& r->Ignored_0 == e
                },
            },
{
    let parsed = read_command(raw);
    let ghost p = parsed;
    match parsed {
        Ok(cmd) => apply_command(reg, cmd),
        Err(e) => ConsoleAction::Ignored(e),
    }
}


/// Disconnecting a peer that no registered connection has leaves the registry
/// as it was and only reports the miss.
pub proof fn lemma_disconnect_absent_is_noop<H>(
    before: Seq<Connection<H>>,
    ip: String,
    port: u16,
    after: Seq<Connection<H>>,
    r: ConsoleAction<H>,
)
    requires
        applies(before, Command::Disconnect { ip, port }, after, r),
        forall|i: int| 0 <= i < before.len() ==> !(#[trigger] before[i]).is_peer(ip@, port),
    ensures
        after == before,
        r matches ConsoleAction::NoSuchPeer { .. },
{
}

} // verus!
