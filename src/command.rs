//! The operator's command language, one line per command:
//! `exit:`, `dc:<ip>:<port>`, `conn:<ip>:<port>`, `conns:`,
//! `sendf:<path>:<ip>:<port>`; any other non-empty line is text to broadcast.
use vstd::prelude::*;
use vstd::string::*;
use crate::codec::find_from;
use crate::text::{chars_of, parse_unsigned, split_of, split_on, substring, unsigned_value};

verus! {

pub open spec fn exit_word() -> Seq<char> {
    seq!['e', 'x', 'i', 't', ':']
}

pub open spec fn list_word() -> Seq<char> {
    seq!['c', 'o', 'n', 'n', 's', ':']
}

pub open spec fn disconnect_prefix() -> Seq<char> {
    seq!['d', 'c', ':']
}

pub open spec fn connect_prefix() -> Seq<char> {
    seq!['c', 'o', 'n', 'n', ':']
}

pub open spec fn send_file_prefix() -> Seq<char> {
    seq!['s', 'e', 'n', 'd', 'f', ':']
}

/// A parsed operator line.
#[derive(PartialEq, Eq, Debug)]
pub enum Command {
    /// Shut every registered connection and stop.
    Exit,
    /// Shut and drop the connection to this peer.
    Disconnect { ip: String, port: u16 },
    /// Open a connection to this peer and register it.
    ConnectOutbound { ip: String, port: u16 },
    /// List the registered connections and drop the dead ones.
    ListConnections,
    /// Push the file at `path` to this peer in a frame.
    SendFile { path: String, ip: String, port: u16 },
    /// Write the text to every registered connection.
    Broadcast(String),
}

/// Why an operator line gives no command.
#[derive(PartialEq, Eq, Structural, Clone, Copy, Debug)]
pub enum CommandError {
    /// The line is empty.
    EmptyLine,
    /// The address lacks its host or its port.
    MissingAddress,
    /// The port is not a number from 0 to 65535.
    BadPort,
}

/// The kind of command a line asks for, from its leading word.
#[derive(PartialEq, Eq, Structural, Clone, Copy, Debug)]
pub enum CommandKind {
    Empty,
    Exit,
    Disconnect,
    Connect,
    List,
    SendFile,
    Broadcast,
}

pub open spec fn starts_with(s: Seq<char>, p: Seq<char>) -> bool {
    p.len() <= s.len() && s.take(p.len() as int) == p
}

/// The kind of command of a line; the leading words are tried in this order.
pub open spec fn kind_of(line: Seq<char>) -> CommandKind {
    if line.len() == 0 {
        CommandKind::Empty
    } else if line == exit_word() {
        CommandKind::Exit
    } else if starts_with(line, disconnect_prefix()) {
        CommandKind::Disconnect
    } else if starts_with(line, connect_prefix()) {
        CommandKind::Connect
    } else if line == list_word() {
        CommandKind::List
    } else if starts_with(line, send_file_prefix()) {
        CommandKind::SendFile
    } else {
        CommandKind::Broadcast
    }
}

/// A port number as the operator writes it.
pub open spec fn port_of(s: Seq<char>) -> Option<u16> {
    match unsigned_value(s, 65535) {
        Some(v) => Some(v as u16),
        None => None,
    }
}

/// `dc:<ip>:<port>...`: the text after the word, cut at every colon; the first
/// two pieces are the host and the port.
pub open spec fn disconnect_fields(line: Seq<char>) -> Result<(Seq<char>, u16), CommandError> {
    let parts = split_of(line.skip(3), ':');
    if parts.len() < 2 {
        Err(CommandError::MissingAddress)
    } else {
        match port_of(parts[1]) {
            Some(p) => Ok((parts[0], p)),
            None => Err(CommandError::BadPort),
        }
    }
}

/// `conn:<ip>:<port>`: the text after the word, cut at its first colon; both
/// sides must be non-empty.
pub open spec fn connect_fields(line: Seq<char>) -> Result<(Seq<char>, u16), CommandError> {
    let rest = line.skip(5);
    match find_from(rest, seq![':'], 0) {
        Some(i) => {
            let ip = rest.take(i);
            let port = rest.skip(i + 1);
            if ip.len() == 0 || port.len() == 0 {
                Err(CommandError::MissingAddress)
            } else {
                match port_of(port) {
                    Some(p) => Ok((ip, p)),
                    None => Err(CommandError::BadPort),
                }
            }
        },
        None => Err(CommandError::MissingAddress),
    }
}

/// `sendf:<path>:<ip>:<port>...`: the text after the word, cut at every colon;
/// the first three pieces are the path, the host and the port.
pub open spec fn send_file_fields(line: Seq<char>) -> Result<
    (Seq<char>, Seq<char>, u16),
    CommandError,
> {
    let parts = split_of(line.skip(6), ':');
    if parts.len() < 3 {
        Err(CommandError::MissingAddress)
    } else {
        match port_of(parts[2]) {
            Some(p) => Ok((parts[0], parts[1], p)),
            None => Err(CommandError::BadPort),
        }
    }
}

/// What a line parses to, over the spec functions above.
pub open spec fn parses_to(line: Seq<char>, r: Result<Command, CommandError>) -> bool {
    match kind_of(line) {
        CommandKind::Empty => r == Err::<Command, CommandError>(CommandError::EmptyLine),
        CommandKind::Exit => r == Ok::<Command, CommandError>(Command::Exit),
        CommandKind::List => r == Ok::<Command, CommandError>(Command::ListConnections),
        CommandKind::Broadcast => r matches Ok(Command::Broadcast(t)) && t@ == line,
        CommandKind::Disconnect => match disconnect_fields(line) {
            Ok((ip, port)) => r matches Ok(Command::Disconnect { ip: i, port: p }) && i@ == ip
                && p == port,
            Err(e) => r == Err::<Command, CommandError>(e),
        },
        CommandKind::Connect => match connect_fields(line) {
            Ok((ip, port)) => r matches Ok(Command::ConnectOutbound { ip: i, port: p }) && i@
                == ip && p == port,
            Err(e) => r == Err::<Command, CommandError>(e),
        },
        CommandKind::SendFile => match send_file_fields(line) {
            Ok((path, ip, port)) => r matches Ok(Command::SendFile { path: f, ip: i, port: p })
                && f@ == path && i@ == ip && p == port,
            Err(e) => r == Err::<Command, CommandError>(e),
        },
    }
}

fn has_prefix(chars: &Vec<char>, p: &str) -> (r: bool)
    ensures
        r == starts_with(chars@, p@),
{
    let pc = chars_of(p);
    if pc.len() > chars.len() {
        return false;
    }
    let mut i: usize = 0;
    while i < pc.len()
        invariant
            pc@ == p@,
            pc@.len() <= chars@.len(),
            i <= pc@.len(),
            forall|j: int| 0 <= j < i ==> chars@[j] == pc@[j],
        decreases pc@.len() - i,
    {
        if chars[i] != pc[i] {
            assert(chars@.take(pc@.len() as int)[i as int] != pc@[i as int]);
            return false;
        }
        i = i + 1;
    }
    assert(chars@.take(pc@.len() as int) =~= pc@);
    true
}

/// Reads a port number.
pub fn parse_port(s: &str) -> (r: Option<u16>)
    ensures
        r == port_of(s@),
{
    match parse_unsigned(s, 65535) {
        Some(v) => Some(v as u16),
        None => None,
    }
}

fn kind_of_line(chars: &Vec<char>) -> (r: CommandKind)
    ensures
        r == kind_of(chars@),
{
    proof {
        reveal_strlit("exit:");
        reveal_strlit("dc:");
        reveal_strlit("conn:");
        reveal_strlit("conns:");
        reveal_strlit("sendf:");
    }
    assert("exit:"@ =~= exit_word());
    assert("dc:"@ =~= disconnect_prefix());
    assert("conn:"@ =~= connect_prefix());
    assert("conns:"@ =~= list_word());
    assert("sendf:"@ =~= send_file_prefix());
    if chars.len() == 0 {
        CommandKind::Empty
    } else if chars.len() == 5 && has_prefix(chars, "exit:") {
        assert(chars@.take(5) =~= chars@);
        CommandKind::Exit
    } else if has_prefix(chars, "dc:") {
        CommandKind::Disconnect
    } else if has_prefix(chars, "conn:") {
        CommandKind::Connect
    } else if chars.len() == 6 && has_prefix(chars, "conns:") {
        assert(chars@.take(6) =~= chars@);
        CommandKind::List
    } else if has_prefix(chars, "sendf:") {
        CommandKind::SendFile
    } else {
        proof {
            if chars@ == exit_word() {
                assert(chars@.take(5) =~= chars@);
            }
            if chars@ == list_word() {
                assert(chars@.take(6) =~= chars@);
            }
        }
        CommandKind::Broadcast
    }
}

/// Parses one operator line (already trimmed).
pub fn parse_command(line: &str) -> (r: Result<Command, CommandError>)
    ensures
        parses_to(line@, r),
{
    let chars = chars_of(line);
    let n = chars.len();
    match kind_of_line(&chars) {
        CommandKind::Empty => Err(CommandError::EmptyLine),
        CommandKind::Exit => Ok(Command::Exit),
        CommandKind::List => Ok(Command::ListConnections),
        CommandKind::Broadcast => Ok(Command::Broadcast(line.to_owned())),
        CommandKind::Disconnect => {
            let rest = substring(line, 3, n);
            assert(rest@ =~= line@.skip(3));
            let parts = split_on(rest.as_str(), ':');
            if parts.len() < 2 {
                return Err(CommandError::MissingAddress);
            }
            match parse_port(parts[1].as_str()) {
                Some(port) => Ok(Command::Disconnect { ip: parts[0].clone(), port }),
                None => Err(CommandError::BadPort),
            }
        },
        CommandKind::Connect => {
            let rest = substring(line, 5, n);
            assert(rest@ =~= line@.skip(5));
            let rc = chars_of(rest.as_str());
            match find_colon(&rc) {
                Some(i) => {
                    proof { crate::codec::lemma_find_from_some(rest@, seq![':'], 0, i as int); }
                    let ip = substring(rest.as_str(), 0, i);
                    let port = substring(rest.as_str(), i + 1, rc.len());
                    assert(ip@ =~= rest@.take(i as int));
                    assert(port@ =~= rest@.skip(i + 1));
                    if ip.as_str().is_empty() || port.as_str().is_empty() {
                        return Err(CommandError::MissingAddress);
                    }
                    match parse_port(port.as_str()) {
                        Some(p) => Ok(Command::ConnectOutbound { ip, port: p }),
                        None => Err(CommandError::BadPort),
                    }
                },
                None => Err(CommandError::MissingAddress),
            }
        },
        CommandKind::SendFile => {
            let rest = substring(line, 6, n);
            assert(rest@ =~= line@.skip(6));
            let parts = split_on(rest.as_str(), ':');
            if parts.len() < 3 {
                return Err(CommandError::MissingAddress);
            }
            match parse_port(parts[2].as_str()) {
                Some(port) => Ok(
                    Command::SendFile { path: parts[0].clone(), ip: parts[1].clone(), port },
                ),
                None => Err(CommandError::BadPort),
            }
        },
    }
}

/// Where the first colon in `s` stands.
fn find_colon(s: &Vec<char>) -> (r: Option<usize>)
    ensures
        r matches Some(i) ==> find_from(s@, seq![':'], 0) == Some(i as int),
        r is None ==> find_from(s@, seq![':'], 0) is None,
{
    let n = s.len();
    let mut i: usize = 0;
    while i < n
        invariant
            n == s@.len(),
            find_from(s@, seq![':'], 0) == find_from(s@, seq![':'], i as int),
        decreases n - i,
    {
        if s[i] == ':' {
            assert(s@.subrange(i as int, i + 1) =~= seq![':']);
            return Some(i);
        }
        assert(s@.subrange(i as int, i + 1)[0] == s@[i as int]);
        i = i + 1;
    }
    None
}


/// Reads an operator line: white space around it aside, as `parse_command`.
pub fn read_command(raw: &str) -> (r: Result<Command, CommandError>)
    ensures
        parses_to(crate::text::trimmed(raw@), r),
{
    let line = crate::text::trim_text(raw);
    parse_command(line.as_str())
}

} // verus!
