//! The read side of a raw session: a two-state machine (reading text, or
//! receiving a framed file) driven by what each read of the socket returned.
//! The loop that reads, logs and writes files runs outside; it hands each
//! outcome of a read to `SessionHandler` and does what the returned step says.
use vstd::prelude::*;
use vstd::string::*;
use crate::text::{chars_of, decimal, decimal_spec, local_timestamp, lossy_text, replace_all, substring, utf8_lossy};
use crate::codec::{
    append_range, copy_range, crlf, end_marker, find, find_from, find_header, header_span,
    lemma_find_from_some, end_marker_bytes,
};

verus! {

/// A file taken off the session: its extension, the bytes received, and
/// whether the end marker closed it (otherwise the peer stopped first).
pub struct ReceivedFile {
    pub extension: Vec<u8>,
    pub contents: Vec<u8>,
    pub complete: bool,
}

/// What the reading loop does after one read.
pub struct SessionStep {
    /// The chunk is text of the session and goes to the session log.
    pub log_chunk: bool,
    /// A file to write out.
    pub file: Option<ReceivedFile>,
    /// Read again; when false the session is over.
    pub keep_reading: bool,
}

/// The two states: reading text, or receiving the file named by an extension,
/// with the bytes received so far.
pub enum SessionState {
    Normal,
    ReceivingFile { extension: Vec<u8>, received: Vec<u8> },
}

pub struct SessionHandler {
    state: SessionState,
}

/// The abstract state: `None` while reading text, else the extension and the
/// bytes received.
pub type StateView = Option<(Seq<u8>, Seq<u8>)>;

/// The abstract outcome of a step: whether to log, the file handed out
/// (extension, bytes, complete), and whether to read again.
pub type StepView = (bool, Option<(Seq<u8>, Seq<u8>, bool)>, bool);

impl SessionState {
    pub open spec fn view(&self) -> StateView {
        match self {
            SessionState::Normal => None,
            SessionState::ReceivingFile { extension, received } => Some((extension@, received@)),
        }
    }
}

impl SessionStep {
    pub open spec fn view(&self) -> StepView {
        (
            self.log_chunk,
            match self.file {
                Some(f) => Some((f.extension@, f.contents@, f.complete)),
                None => None,
            },
            self.keep_reading,
        )
    }
}

/// A file chunk: the bytes before the first end marker at or after `from`
/// complete the file; without one, all of them are appended and the transfer
/// goes on.
pub open spec fn file_chunk(ext: Seq<u8>, got: Seq<u8>, chunk: Seq<u8>, from: int) -> (
    StateView,
    StepView,
) {
    match find_from(chunk, end_marker(), from) {
        Some(m) => (None, (false, Some((ext, got + chunk.subrange(from, m), true)), true)),
        None => (Some((ext, got + chunk.subrange(from, chunk.len() as int))), (false, None, true)),
    }
}

/// The step for a read that returned the non-empty `chunk`.
pub open spec fn data_step(state: StateView, chunk: Seq<u8>) -> (StateView, StepView) {
    match state {
        None => match header_span(chunk) {
            Some((h, e)) => {
                let r = file_chunk(chunk.subrange(h, e), Seq::empty(), chunk, e + 2);
                (r.0, (true, r.1.1, true))
            },
            None => (None, (true, None, true)),
        },
        Some((ext, got)) => file_chunk(ext, got, chunk, 0),
    }
}

/// The step for a read that returned nothing or failed: a session reading
/// text ends; a transfer is cut off, what arrived is handed out, and reading
/// goes on.
pub open spec fn stop_step(state: StateView) -> (StateView, StepView) {
    match state {
        None => (None, (false, None, false)),
        Some((ext, got)) => (None, (false, Some((ext, got, false)), true)),
    }
}

/// The step for a read that timed out: a transfer is cut off and what arrived
/// is handed out; either way the session goes on reading.
pub open spec fn timeout_step(state: StateView) -> (StateView, StepView) {
    match state {
        None => (None, (false, None, true)),
        Some((ext, got)) => (None, (false, Some((ext, got, false)), true)),
    }
}

/// Receives one chunk of a file that is being transferred.
fn receive_file_chunk(extension: Vec<u8>, received: Vec<u8>, chunk: &[u8], from: usize) -> (r: (
    SessionState,
    Option<ReceivedFile>,
))
    requires
        from <= chunk@.len(),
    ensures
        r.0@ == file_chunk(extension@, received@, chunk@, from as int).0,
        (match r.1 {
            Some(f) => Some((f.extension@, f.contents@, f.complete)),
            None => None,
        }) == file_chunk(extension@, received@, chunk@, from as int).1.1,
{
    let end = end_marker_bytes();
    let mut received = received;
    match find(chunk, end.as_slice(), from) {
        Some(m) => {
            proof { lemma_find_from_some(chunk@, end_marker(), from as int, m as int); }
            append_range(&mut received, chunk, from, m);
            (
                SessionState::Normal,
                Some(ReceivedFile { extension, contents: received, complete: true }),
            )
        },
        None => {
            append_range(&mut received, chunk, from, chunk.len());
            (SessionState::ReceivingFile { extension, received }, None)
        },
    }
}

impl SessionHandler {
    pub closed spec fn view(&self) -> StateView {
        self.state@
    }

    /// A session that has read nothing yet.
    pub fn new() -> (r: SessionHandler)
        ensures
            r@ is None,
    {
        SessionHandler { state: SessionState::Normal }
    }

    /// Whether a file transfer is under way.
    pub fn is_receiving_file(&self) -> (r: bool)
        ensures
            r == self@ is Some,
    {
        match &self.state {
            SessionState::Normal => false,
            SessionState::ReceivingFile { .. } => true,
        }
    }

    /// A read returned the non-empty `chunk`.
    pub fn on_data(&mut self, chunk: &[u8]) -> (r: SessionStep)
        requires
            chunk@.len() > 0,
        ensures
            final(self)@ == data_step(old(self)@, chunk@).0,
            r@ == data_step(old(self)@, chunk@).1,
    {
        let n = chunk.len();
        let mut state = SessionState::Normal;
        std::mem::swap(&mut state, &mut self.state);
        match state {
            SessionState::Normal => match find_header(chunk) {
                Some((h, e)) => {
                    proof {
                        lemma_find_from_some(chunk@, crlf(), h as int, e as int);
                        assert(crlf().len() == 2);
                    }
                    let extension = copy_range(chunk, h, e);
                    let (next, file) = receive_file_chunk(extension, Vec::new(), chunk, e + 2);
                    self.state = next;
                    SessionStep { log_chunk: true, file, keep_reading: true }
                },
                None => SessionStep { log_chunk: true, file: None, keep_reading: true },
            },
            SessionState::ReceivingFile { extension, received } => {
                let (next, file) = receive_file_chunk(extension, received, chunk, 0);
                self.state = next;
                SessionStep { log_chunk: false, file, keep_reading: true }
            },
        }
    }

    /// A read timed out.
    pub fn on_timeout(&mut self) -> (r: SessionStep)
        ensures
            final(self)@ == timeout_step(old(self)@).0,
            r@ == timeout_step(old(self)@).1,
    {
        let mut state = SessionState::Normal;
        std::mem::swap(&mut state, &mut self.state);
        match state {
            SessionState::Normal => SessionStep { log_chunk: false, file: None, keep_reading: true },
            SessionState::ReceivingFile { extension, received } => SessionStep {
                log_chunk: false,
                file: Some(ReceivedFile { extension, contents: received, complete: false }),
                keep_reading: true,
            },
        }
    }

    /// A read returned nothing or failed.
    pub fn on_stop(&mut self) -> (r: SessionStep)
        ensures
            final(self)@ == stop_step(old(self)@).0,
            r@ == stop_step(old(self)@).1,
    {
        let mut state = SessionState::Normal;
        std::mem::swap(&mut state, &mut self.state);
        match state {
            SessionState::Normal => SessionStep { log_chunk: false, file: None, keep_reading: false },
            SessionState::ReceivingFile { extension, received } => SessionStep {
                log_chunk: false,
                file: Some(ReceivedFile { extension, contents: received, complete: false }),
                keep_reading: true,
            },
        }
    }
}


/// The first non-zero byte at or after `from`, or the end.
pub open spec fn first_nonzero(b: Seq<u8>, from: int) -> int
    decreases b.len() - from,
{
    if from < 0 || from >= b.len() {
        b.len() as int
    } else if b[from] != 0 {
        from
    } else {
        first_nonzero(b, from + 1)
    }
}

/// Just past the last non-zero byte before `upto`, or the start.
pub open spec fn nonzero_end(b: Seq<u8>, upto: int) -> int
    decreases upto,
{
    if upto <= 0 || upto > b.len() {
        0
    } else if b[upto - 1] != 0 {
        upto
    } else {
        nonzero_end(b, upto - 1)
    }
}

/// `b` without the zero bytes of padding at either end.
pub open spec fn unpadded(b: Seq<u8>) -> Seq<u8> {
    let a = first_nonzero(b, 0);
    if a >= b.len() {
        Seq::empty()
    } else {
        b.subrange(a, nonzero_end(b, b.len() as int))
    }
}

proof fn lemma_nonzero_end_after(b: Seq<u8>, a: int, upto: int)
    requires
        0 <= a < upto <= b.len(),
        b[a] != 0,
    ensures
        a < nonzero_end(b, upto) <= upto,
    decreases upto,
{
    if b[upto - 1] == 0 {
        lemma_nonzero_end_after(b, a, upto - 1);
    }
}

/// `b` without its padding.
pub fn strip_padding(b: &[u8]) -> (r: Vec<u8>)
    ensures
        r@ == unpadded(b@),
{
    let n = b.len();
    let mut a: usize = 0;
    while a < n && b[a] == 0
        invariant
            n == b@.len(),
            a <= n,
            first_nonzero(b@, 0) == first_nonzero(b@, a as int),
        decreases n - a,
    {
        a = a + 1;
    }
    if a >= n {
        return Vec::new();
    }
    let mut z: usize = n;
    while z > 0 && b[z - 1] == 0
        invariant
            n == b@.len(),
            z <= n,
            nonzero_end(b@, n as int) == nonzero_end(b@, z as int),
        decreases z,
    {
        z = z - 1;
    }
    proof { lemma_nonzero_end_after(b@, a as int, n as int); }
    crate::codec::copy_range(b, a, z)
}

/// A session log line: when, from whom, how many bytes were read, and the text.
pub open spec fn log_line_spec(stamp: Seq<char>, ip: Seq<char>, port: u16, n: nat, text: Seq<char>) -> Seq<char> {
    "["@ + stamp + "] -- ["@ + ip + ":"@ + decimal_spec(port as nat) + "] -- ["@ + decimal_spec(n)
        + " bytes]: "@ + text + "\n"@
}

/// Formats a session log line.
pub fn log_line(stamp: &str, ip: &str, port: u16, n: usize, text: &str) -> (r: String)
    ensures
        r@ == log_line_spec(stamp@, ip@, port, n as nat, text@),
{
    let mut r = String::from_str("[");
    r.append(stamp);
    r.append("] -- [");
    r.append(ip);
    r.append(":");
    r.append(decimal(port as u64).as_str());
    r.append("] -- [");
    r.append(decimal(n as u64).as_str());
    r.append(" bytes]: ");
    r.append(text);
    r.append("\n");
    r
}

/// The log line for a chunk read now from `ip`:`port`: its text is the chunk
/// without padding, decoded.
pub fn session_log_entry(ip: &str, port: u16, chunk: &[u8]) -> (r: String)
    ensures
        exists|stamp: Seq<char>|
            r@ == log_line_spec(stamp, ip@, port, chunk@.len(), utf8_lossy(unpadded(chunk@))),
{
    let stamp = local_timestamp();
    let data = strip_padding(chunk);
    let text = lossy_text(data.as_slice());
    log_line(stamp.as_str(), ip, port, chunk.len(), text.as_str())
}

/// Separators of a timestamp that a file name does without.
pub open spec fn stamp_separators() -> Seq<char> {
    seq![':', ' ']
}

/// The name a received file is written under: the time it arrived, with its
/// separators turned into dashes, then `-recv.` and the extension.
pub open spec fn received_file_name_spec(stamp: Seq<char>, ext: Seq<char>) -> Seq<char> {
    replace_all(stamp, stamp_separators(), '-') + "-recv."@ + ext
}

/// The name of a file received at `stamp` with extension `ext`.
pub fn received_file_name(stamp: &str, ext: &str) -> (r: String)
    ensures
        r@ == received_file_name_spec(stamp@, ext@),
{
    let chars = chars_of(stamp);
    let mut r = String::new();
    let mut i: usize = 0;
    while i < chars.len()
        invariant
            chars@ == stamp@,
            i <= chars@.len(),
            r@ == replace_all(stamp@.take(i as int), stamp_separators(), '-'),
        decreases chars@.len() - i,
    {
        let c = chars[i];
        let ghost before = r@;
        assert(replace_all(stamp@.take(i + 1), stamp_separators(), '-') =~= replace_all(
            stamp@.take(i as int),
            stamp_separators(),
            '-',
        ).push(if stamp_separators().contains(c) { '-' } else { c }));
        if c == ':' || c == ' ' {
            r.append("-");
            proof {
                if c == ':' {
                    assert(stamp_separators()[0] == c);
                } else {
                    assert(stamp_separators()[1] == c);
                }
                reveal_strlit("-");
                assert("-"@ =~= seq!['-']);
            }
        } else {
            let one = substring(stamp, i, i + 1);
            r.append(one.as_str());
            proof {
                assert forall|k: int| 0 <= k < stamp_separators().len() implies stamp_separators()[k] != c by {}
                assert(one@ =~= seq![c]);
            }
        }
        assert(r@ =~= replace_all(stamp@.take(i + 1), stamp_separators(), '-'));
        i = i + 1;
    }
    assert(stamp@.take(chars@.len() as int) =~= stamp@);
    r.append("-recv.");
    r.append(ext);
    r
}

/// The name for a file arriving now with the extension bytes `ext`.
pub fn name_for_received_file(ext: &[u8]) -> (r: String)
    ensures
        exists|stamp: Seq<char>| r@ == received_file_name_spec(stamp, utf8_lossy(ext@)),
{
    let stamp = local_timestamp();
    let e = lossy_text(ext);
    received_file_name(stamp.as_str(), e.as_str())
}


/// A session reading text that receives a whole frame in one read hands out
/// the framed file, complete, and goes back to reading text; as for decoding,
/// the extension holds no line terminator and the end marker does not cut the
/// payload short.
pub proof fn lemma_session_receives_frame(ext: Seq<u8>, payload: Seq<u8>)
    requires
        !crate::codec::contains(ext, crlf()),
        crate::codec::frames_cleanly(payload),
    ensures
        data_step(None, crate::codec::frame_of(ext, payload)) == (
            None::<(Seq<u8>, Seq<u8>)>,
            (true, Some((ext, payload, true)), true),
        ),
{
    let f = crate::codec::frame_of(ext, payload);
    crate::codec::lemma_header_of_frame(ext, payload);
    crate::codec::lemma_end_of_frame(ext, payload);
    let e = 17 + ext.len() as int;
    let m = e + 2 + payload.len() as int;
    assert(f.subrange(17, e) =~= ext);
    assert(Seq::<u8>::empty() + f.subrange(e + 2, m) =~= payload);
}

} // verus!
