//! Interactive terminals: the output buffer, the decisions of the worker
//! that drives a terminal's channel, and the table of open terminals.
use vstd::prelude::*;
use crate::errors::{invalid_input, AppError, ErrorView};
use crate::registry::Registry;
use crate::session::{is_v4_uuid_text, new_id};
use crate::text::concat_str;

verus! {

/// The most output read from a channel in one turn of the worker.
pub const MAX_READ_BYTES_PER_TICK: usize = 65536;

/// The most output a terminal keeps unread; older output is dropped first.
pub const MAX_BUFFER_BYTES: usize = 524288;

/// The pause of the worker when a turn read nothing, in milliseconds.
pub const WORKER_IDLE_SLEEP_MS: u64 = 12;

/// The pause before retrying a write that made no progress, in milliseconds.
pub const WRITE_RETRY_SLEEP_MS: u64 = 2;

/// The smallest terminal width the pseudo-terminal is given.
pub const MIN_COLS: u32 = 20;

/// The smallest terminal height the pseudo-terminal is given.
pub const MIN_ROWS: u32 = 5;

/// A command sent to a terminal's worker.
pub enum TerminalWorkerCommand {
    Write(Vec<u8>),
    Resize { cols: u32, rows: u32 },
    Close,
}

/// A buffer after `chunk` is appended: the last `MAX_BUFFER_BYTES` bytes of
/// the two together, or the buffer unchanged for an empty chunk.
pub open spec fn appended(buffer: Seq<u8>, chunk: Seq<u8>) -> Seq<u8> {
    if chunk.len() == 0 {
        buffer
    } else {
        let all = buffer + chunk;
        if all.len() > MAX_BUFFER_BYTES {
            all.skip(all.len() - MAX_BUFFER_BYTES)
        } else {
            all
        }
    }
}

/// Appends output to a terminal's buffer, dropping the oldest bytes beyond
/// `MAX_BUFFER_BYTES`.
pub fn append_buffer(buffer: &mut Vec<u8>, chunk: &[u8])
    ensures
        final(buffer)@ == appended(old(buffer)@, chunk@),
        chunk@.len() == 0 ==> final(buffer)@ == old(buffer)@,
        chunk@.len() > 0 ==> final(buffer)@.len() == (if old(buffer)@.len() + chunk@.len() > MAX_BUFFER_BYTES {
            MAX_BUFFER_BYTES as nat
        } else {
            old(buffer)@.len() + chunk@.len()
        }),
        chunk@.len() > 0 ==> final(buffer)@ == (old(buffer)@ + chunk@).skip(
            old(buffer)@.len() + chunk@.len() - final(buffer)@.len(),
        ),
{
    if chunk.len() == 0 {
        return;
    }
    let mut i: usize = 0;
    while i < chunk.len()
        invariant
            i <= chunk@.len(),
            buffer@ == old(buffer)@ + chunk@.take(i as int),
        decreases chunk@.len() - i,
    {
        buffer.push(chunk[i]);
        assert(chunk@.take(i + 1) =~= chunk@.take(i as int).push(chunk@[i as int]));
        i = i + 1;
    }
    assert(chunk@.take(chunk@.len() as int) =~= chunk@);
    if buffer.len() > MAX_BUFFER_BYTES {
        let extra = buffer.len() - MAX_BUFFER_BYTES;
        let mut kept: Vec<u8> = Vec::new();
        let mut j: usize = extra;
        while j < buffer.len()
            invariant
                extra <= j <= buffer@.len(),
                kept@ == buffer@.subrange(extra as int, j as int),
            decreases buffer@.len() - j,
        {
            kept.push(buffer[j]);
            assert(buffer@.subrange(extra as int, j + 1) =~= buffer@.subrange(extra as int, j as int).push(buffer@[j as int]));
            j = j + 1;
        }
        assert(buffer@.subrange(extra as int, buffer@.len() as int) =~= buffer@.skip(extra as int));
        *buffer = kept;
    }
    proof {
        law_append_is_suffix(old(buffer)@, chunk@);
    }
}

/// Takes all unread output out of a terminal's buffer.
pub fn drain_output(buffer: &mut Vec<u8>) -> (r: Vec<u8>)
    ensures
        r@ == old(buffer)@,
        final(buffer)@.len() == 0,
{
    let mut taken: Vec<u8> = Vec::new();
    std::mem::swap(&mut taken, buffer);
    taken
}

/// Records the reason a terminal's worker stopped.
pub fn set_last_error(last_error: &mut Option<String>, msg: String)
    ensures
        *final(last_error) == Some(msg),
{
    *last_error = Some(msg);
}

/// The size given to the pseudo-terminal for a requested size: at least
/// `MIN_COLS` wide and `MIN_ROWS` high.
pub fn pty_dimensions(cols: u32, rows: u32) -> (r: (u32, u32))
    ensures
        r.0 == if cols < MIN_COLS { MIN_COLS } else { cols },
        r.1 == if rows < MIN_ROWS { MIN_ROWS } else { rows },
{
    (if cols < MIN_COLS { MIN_COLS } else { cols }, if rows < MIN_ROWS { MIN_ROWS } else { rows })
}

/// The refusal of input for a terminal whose worker has stopped.
pub fn check_terminal_open(closed: bool) -> (r: Result<(), AppError>)
    ensures
        r is Ok <==> !closed,
        r matches Err(e) ==> e@ == ErrorView::InvalidInput("terminal closed"@),
{
    if closed {
        Err(invalid_input("terminal closed"))
    } else {
        Ok(())
    }
}

/// The error reported when a command cannot reach a terminal's worker.
pub fn worker_unavailable() -> (e: AppError)
    ensures
        e@ == ErrorView::InvalidInput("terminal worker unavailable"@),
{
    invalid_input("terminal worker unavailable")
}

/// The text `String::from_utf8_lossy` makes of `bytes`.
pub uninterp spec fn lossy_text(bytes: Seq<u8>) -> Seq<char>;

/// `String::from_utf8_lossy`: the bytes decoded as UTF-8, each invalid
/// sequence replaced by U+FFFD; for valid UTF-8 that is the plain decoding.
#[verifier::external_body]
fn utf8_lossy(bytes: &[u8]) -> (r: String)
    ensures
        r@ == lossy_text(bytes@),
        vstd::utf8::valid_utf8(bytes@) ==> r@ == vstd::utf8::decode_utf8(bytes@),
{
    String::from_utf8_lossy(bytes).to_string()
}

/// What a read of a terminal returns: the output taken from its buffer as
/// text; where there was none and the worker has stopped, the reason it
/// stopped (or that it stopped) as an I/O error.
pub fn terminal_read_result(data: Vec<u8>, closed: bool, last_error: Option<String>) -> (r: Result<
    String,
    AppError,
>)
    ensures
        r is Err <==> data@.len() == 0 && closed,
        r matches Ok(t) ==> t@ == lossy_text(data@),
        r matches Ok(t) ==> (vstd::utf8::valid_utf8(data@) ==> t@ == vstd::utf8::decode_utf8(data@)),
        r matches Ok(t) ==> (data@.len() == 0 ==> t@.len() == 0),
        r matches Err(e) ==> e@ == ErrorView::Io(
            match last_error {
                Some(m) => m@,
                None => "terminal worker stopped"@,
            },
        ),
{
    if data.len() == 0 && closed {
        let message = match last_error {
            Some(m) => m,
            None => "terminal worker stopped".to_owned(),
        };
        return Err(AppError::Io(message));
    }
    let text = utf8_lossy(data.as_slice());
    proof {
        if data@.len() == 0 {
            assert(vstd::utf8::valid_utf8(data@));
            assert(vstd::utf8::decode_utf8(data@) =~= Seq::<char>::empty());
        }
    }
    Ok(text)
}

/// The result of one write attempt on a channel.
pub enum WriteOutcome {
    /// The channel took this many bytes.
    Wrote(usize),
    WouldBlock,
    Failed(String),
}

/// The result of one flush attempt on a channel.
pub enum FlushOutcome {
    Flushed,
    WouldBlock,
    Failed(String),
}

/// What to do next while writing data to a channel.
pub enum WriteControl {
    /// Write the data from `offset` on, after a short pause where `pause`.
    Write { offset: usize, pause: bool },
    /// Flush the channel, after a short pause where `pause`.
    Flush { pause: bool },
    Finished,
    Failed(String),
}

/// The first step of writing `len` bytes.
pub fn write_begin(len: usize) -> (r: WriteControl)
    ensures
        len == 0 ==> r == (WriteControl::Flush { pause: false }),
        len > 0 ==> r == (WriteControl::Write { offset: 0, pause: false }),
{
    if len == 0 {
        WriteControl::Flush { pause: false }
    } else {
        WriteControl::Write { offset: 0, pause: false }
    }
}

/// The step after a write attempt at `offset` of `len` bytes: progress moves
/// the offset on, and once every byte is taken the channel is flushed; no
/// progress retries after a pause; a failure ends the write.
pub open spec fn write_next(offset: usize, len: usize, outcome: WriteOutcome) -> WriteControl {
    match outcome {
        WriteOutcome::Wrote(n) => if n == 0 {
            WriteControl::Write { offset, pause: true }
        } else if n < len - offset {
            WriteControl::Write { offset: (offset + n) as usize, pause: false }
        } else {
            WriteControl::Flush { pause: false }
        },
        WriteOutcome::WouldBlock => WriteControl::Write { offset, pause: true },
        WriteOutcome::Failed(e) => WriteControl::Failed(e),
    }
}

/// The step after a write attempt at `offset` of `len` bytes.
pub fn write_step(offset: usize, len: usize, outcome: WriteOutcome) -> (r: WriteControl)
    requires
        offset < len,
    ensures
        r == write_next(offset, len, outcome),
{
    match outcome {
        WriteOutcome::Wrote(n) => {
            if n == 0 {
                WriteControl::Write { offset, pause: true }
            } else if n < len - offset {
                WriteControl::Write { offset: offset + n, pause: false }
            } else {
                WriteControl::Flush { pause: false }
            }
        },
        WriteOutcome::WouldBlock => WriteControl::Write { offset, pause: true },
        WriteOutcome::Failed(e) => WriteControl::Failed(e),
    }
}

/// The step after a flush attempt: done, retried after a pause, or failed.
pub fn flush_step(outcome: FlushOutcome) -> (r: WriteControl)
    ensures
        match outcome {
            FlushOutcome::Flushed => r == WriteControl::Finished,
            FlushOutcome::WouldBlock => r == (WriteControl::Flush { pause: true }),
            FlushOutcome::Failed(e) => r == WriteControl::Failed(e),
        },
{
    match outcome {
        FlushOutcome::Flushed => WriteControl::Finished,
        FlushOutcome::WouldBlock => WriteControl::Flush { pause: true },
        FlushOutcome::Failed(e) => WriteControl::Failed(e),
    }
}

/// The result of one read attempt on a channel.
pub enum ReadOutcome {
    /// The channel gave these bytes; none means end of stream.
    Got(Vec<u8>),
    WouldBlock,
    Failed(String),
}

/// What to do next while reading a channel's pending output.
pub enum ReadControl {
    More,
    Done,
    Failed(String),
}

/// Takes in the result of a read attempt: bytes read are added to `output`,
/// and reading goes on while fewer than `MAX_READ_BYTES_PER_TICK` bytes are
/// collected; end of stream or nothing pending ends the turn.
pub fn read_step(output: &mut Vec<u8>, outcome: ReadOutcome) -> (r: ReadControl)
    ensures
        match outcome {
            ReadOutcome::Got(bytes) => {
                &&& final(output)@ == old(output)@ + bytes@
                &&& r == if bytes@.len() > 0 && final(output)@.len() < MAX_READ_BYTES_PER_TICK {
                    ReadControl::More
                } else {
                    ReadControl::Done
                }
            },
            ReadOutcome::WouldBlock => final(output)@ == old(output)@ && r == ReadControl::Done,
            ReadOutcome::Failed(e) => final(output)@ == old(output)@ && r == ReadControl::Failed(e),
        },
{
    match outcome {
        ReadOutcome::Got(bytes) => {
            if bytes.len() == 0 {
                assert(old(output)@ + bytes@ =~= old(output)@);
                return ReadControl::Done;
            }
            let mut i: usize = 0;
            while i < bytes.len()
                invariant
                    i <= bytes@.len(),
                    output@ == old(output)@ + bytes@.take(i as int),
                decreases bytes@.len() - i,
            {
                output.push(bytes[i]);
                assert(bytes@.take(i + 1) =~= bytes@.take(i as int).push(bytes@[i as int]));
                i = i + 1;
            }
            assert(bytes@.take(bytes@.len() as int) =~= bytes@);
            if output.len() < MAX_READ_BYTES_PER_TICK {
                ReadControl::More
            } else {
                ReadControl::Done
            }
        },
        ReadOutcome::WouldBlock => ReadControl::Done,
        ReadOutcome::Failed(e) => ReadControl::Failed(e),
    }
}


/// Where the worker of a terminal stands.
pub enum WorkerPhase {
    /// Taking the next command from its queue.
    Polling,
    /// Writing data to the channel.
    Writing,
    /// Resizing the pseudo-terminal.
    Resizing,
    /// Reading pending output from the channel.
    Reading,
    /// Shut down.
    Stopped,
}

/// What the worker observed.
pub enum WorkerEvent {
    /// A command came from the queue.
    Received(TerminalWorkerCommand),
    /// The queue held no command.
    QueueEmpty,
    /// Every sender of the queue is gone.
    QueueDisconnected,
    /// The session's operation lock was poisoned.
    LockPoisoned,
    /// The write or resize completed.
    Done,
    /// The write, resize or read failed, with the failure's description.
    Failed(String),
    /// The read returned this output (possibly none).
    ReadChunk(Vec<u8>),
}

/// What the worker does next.
pub enum WorkerAction {
    PollQueue,
    /// Write the data to the channel.
    Write(Vec<u8>),
    /// Resize the pseudo-terminal.
    Resize { cols: u32, rows: u32 },
    /// Read pending output from the channel.
    Read,
    /// Append the output to the terminal's buffer, then poll the queue.
    Append(Vec<u8>),
    /// Pause `WORKER_IDLE_SLEEP_MS`, then poll the queue.
    IdleThenPoll,
    /// Record the error if there is one, close the channel, mark the
    /// terminal closed and end.
    Shutdown { error: Option<String> },
}

/// Whether `action` shuts the worker down recording `error`.
pub open spec fn is_shutdown(action: WorkerAction, error: Option<Seq<char>>) -> bool {
    match action {
        WorkerAction::Shutdown { error: e } => match (e, error) {
            (Some(m), Some(t)) => m@ == t,
            (None, None) => true,
            _ => false,
        },
        _ => false,
    }
}

/// The worker's transitions. Commands are taken one by one until the queue
/// is empty; then pending output is read once, and the queue is polled
/// again. A close command or a gone queue shuts the worker down without an
/// error; a failed operation or a poisoned lock shuts it down with one. An
/// event that cannot occur in a phase shuts the worker down, and a stopped
/// worker stays stopped.
pub open spec fn worker_transition(
    phase: WorkerPhase,
    event: WorkerEvent,
    next: WorkerPhase,
    action: WorkerAction,
) -> bool {
    match phase {
        WorkerPhase::Polling => match event {
            WorkerEvent::Received(TerminalWorkerCommand::Write(d)) => next is Writing && action
                == WorkerAction::Write(d),
            WorkerEvent::Received(TerminalWorkerCommand::Resize { cols, rows }) => next is Resizing
                && action == (WorkerAction::Resize {
                cols: if cols < MIN_COLS {
                    MIN_COLS
                } else {
                    cols
                },
                rows: if rows < MIN_ROWS {
                    MIN_ROWS
                } else {
                    rows
                },
            }),
            WorkerEvent::QueueEmpty => next is Reading && action is Read,
            _ => next is Stopped && is_shutdown(action, None),
        },
        WorkerPhase::Writing => match event {
            WorkerEvent::Done => next is Polling && action is PollQueue,
            WorkerEvent::Failed(e) => next is Stopped && is_shutdown(
                action,
                Some("transport write: "@ + e@),
            ),
            WorkerEvent::LockPoisoned => next is Stopped && is_shutdown(
                action,
                Some("state lock poisoned"@),
            ),
            _ => next is Stopped && is_shutdown(action, None),
        },
        WorkerPhase::Resizing => match event {
            WorkerEvent::Done => next is Polling && action is PollQueue,
            WorkerEvent::Failed(e) => next is Stopped && is_shutdown(
                action,
                Some("pty resize: "@ + e@),
            ),
            WorkerEvent::LockPoisoned => next is Stopped && is_shutdown(
                action,
                Some("state lock poisoned"@),
            ),
            _ => next is Stopped && is_shutdown(action, None),
        },
        WorkerPhase::Reading => match event {
            WorkerEvent::ReadChunk(c) => next is Polling && if c@.len() > 0 {
                action == WorkerAction::Append(c)
            } else {
                action is IdleThenPoll
            },
            WorkerEvent::Failed(e) => next is Stopped && is_shutdown(
                action,
                Some("transport read: "@ + e@),
            ),
            WorkerEvent::LockPoisoned => next is Stopped && is_shutdown(
                action,
                Some("state lock poisoned"@),
            ),
            _ => next is Stopped && is_shutdown(action, None),
        },
        WorkerPhase::Stopped => next is Stopped && is_shutdown(action, None),
    }
}

fn stop_with(message: String) -> (r: (WorkerPhase, WorkerAction))
    ensures
        r.0 is Stopped,
        is_shutdown(r.1, Some(message@)),
{
    (WorkerPhase::Stopped, WorkerAction::Shutdown { error: Some(message) })
}

fn stop_quietly() -> (r: (WorkerPhase, WorkerAction))
    ensures
        r.0 is Stopped,
        is_shutdown(r.1, None),
{
    (WorkerPhase::Stopped, WorkerAction::Shutdown { error: None })
}

/// One step of a terminal's worker: the next phase and the action to take
/// there. A worker starts in `Polling` by polling its queue.
pub fn worker_step(phase: WorkerPhase, event: WorkerEvent) -> (r: (WorkerPhase, WorkerAction))
    ensures
        worker_transition(phase, event, r.0, r.1),
{
    match phase {
        WorkerPhase::Polling => match event {
            WorkerEvent::Received(TerminalWorkerCommand::Write(d)) => (
                WorkerPhase::Writing,
                WorkerAction::Write(d),
            ),
            WorkerEvent::Received(TerminalWorkerCommand::Resize { cols, rows }) => {
                let (c, r) = pty_dimensions(cols, rows);
                (WorkerPhase::Resizing, WorkerAction::Resize { cols: c, rows: r })
            },
            WorkerEvent::QueueEmpty => (WorkerPhase::Reading, WorkerAction::Read),
            _ => stop_quietly(),
        },
        WorkerPhase::Writing => match event {
            WorkerEvent::Done => (WorkerPhase::Polling, WorkerAction::PollQueue),
            WorkerEvent::Failed(e) => stop_with(concat_str("transport write: ", e.as_str())),
            WorkerEvent::LockPoisoned => stop_with("state lock poisoned".to_owned()),
            _ => stop_quietly(),
        },
        WorkerPhase::Resizing => match event {
            WorkerEvent::Done => (WorkerPhase::Polling, WorkerAction::PollQueue),
            WorkerEvent::Failed(e) => stop_with(concat_str("pty resize: ", e.as_str())),
            WorkerEvent::LockPoisoned => stop_with("state lock poisoned".to_owned()),
            _ => stop_quietly(),
        },
        WorkerPhase::Reading => match event {
            WorkerEvent::ReadChunk(c) => if c.len() > 0 {
                (WorkerPhase::Polling, WorkerAction::Append(c))
            } else {
                (WorkerPhase::Polling, WorkerAction::IdleThenPoll)
            },
            WorkerEvent::Failed(e) => stop_with(concat_str("transport read: ", e.as_str())),
            WorkerEvent::LockPoisoned => stop_with("state lock poisoned".to_owned()),
            _ => stop_quietly(),
        },
        WorkerPhase::Stopped => stop_quietly(),
    }
}


/// An open terminal: the session it runs on and the handle `H` of its
/// worker.
pub struct TerminalSession<H> {
    pub session_id: String,
    pub handle: H,
}

/// A fresh identifier for a terminal.
pub fn new_terminal_id() -> (r: String)
    ensures
        is_v4_uuid_text(r@),
{
    new_id()
}

/// The terminal `id`, or the error that no such terminal is open.
pub fn find_terminal<'a, H>(terminals: &'a Registry<TerminalSession<H>>, id: &str) -> (r: Result<
    &'a TerminalSession<H>,
    AppError,
>)
    ensures
        r is Ok <==> terminals@.contains_key(id@),
        r matches Ok(t) ==> *t == terminals@[id@],
        r matches Err(e) ==> e@ == ErrorView::TerminalNotFound,
{
    match terminals.get(id) {
        Some(t) => Ok(t),
        None => Err(AppError::TerminalNotFound),
    }
}

/// Takes terminal `id` out of the table; the error that no such terminal is
/// open otherwise.
pub fn remove_terminal<H>(terminals: &mut Registry<TerminalSession<H>>, id: &str) -> (r: Result<
    TerminalSession<H>,
    AppError,
>)
    ensures
        r is Ok <==> old(terminals)@.contains_key(id@),
        r matches Ok(t) ==> t == old(terminals)@[id@],
        r matches Err(e) ==> e@ == ErrorView::TerminalNotFound,
        final(terminals)@ == old(terminals)@.remove(id@),
{
    match terminals.remove(id) {
        Some(t) => Ok(t),
        None => Err(AppError::TerminalNotFound),
    }
}

/// The identifiers of the terminals in `m` that run on session `session_id`.
pub open spec fn terminals_of<H>(m: Map<Seq<char>, TerminalSession<H>>, session_id: Seq<char>) -> Set<Seq<char>> {
    m.dom().filter(|k: Seq<char>| m[k].session_id@ == session_id)
}

/// Takes every terminal of session `session_id` out of the table, handing
/// them back with their identifiers; the other terminals stay.
pub fn take_session_terminals<H>(
    terminals: &mut Registry<TerminalSession<H>>,
    session_id: &str,
) -> (r: Vec<(String, TerminalSession<H>)>)
    ensures
        final(terminals)@ == old(terminals)@.remove_keys(terminals_of(old(terminals)@, session_id@)),
        forall|i: int|
            0 <= i < r@.len() ==> #[trigger] terminals_of(old(terminals)@, session_id@).contains(
                r@[i].0@,
            ) && old(terminals)@[r@[i].0@] == r@[i].1,
        r@.map_values(|p: (String, TerminalSession<H>)| p.0@).to_set() == terminals_of(
            old(terminals)@,
            session_id@,
        ),
{
    let ghost m0 = terminals@;
    let n = terminals.len();
    let mut ids: Vec<String> = Vec::new();
    let mut i: usize = 0;
    while i < n
        invariant
            i <= n == terminals.entries_seq().len(),
            terminals@ == m0,
            Registry::<TerminalSession<H>>::unique(terminals.entries_seq()),
            ids@.map_values(|k: String| k@).to_set() == Set::new(
                |k: Seq<char>|
                    exists|j: int|
                        0 <= j < i && (#[trigger] terminals.entries_seq()[j]).0 == k
                            && terminals.entries_seq()[j].1.session_id@ == session_id@,
            ),
        decreases n - i,
    {
        let (k, t) = terminals.entry_at(i);
        let ghost before = ids@.map_values(|k: String| k@);
        let ghost es = terminals.entries_seq();
        if crate::text::str_eq(t.session_id.as_str(), session_id) {
            ids.push(k.clone());
            proof {
                assert(ids@.map_values(|k: String| k@) =~= before.push(k@));
                before.lemma_push_to_set_commute(k@);
            }
        }
        proof {
            let now = ids@.map_values(|k: String| k@).to_set();
            assert forall|key: Seq<char>| now.contains(key) <==> exists|j: int|
                0 <= j < i + 1 && (#[trigger] es[j]).0 == key && es[j].1.session_id@
                    == session_id@ by {
                if exists|j: int|
                    0 <= j < i + 1 && (#[trigger] es[j]).0 == key && es[j].1.session_id@
                        == session_id@ {
                    let j = choose|j: int|
                        0 <= j < i + 1 && (#[trigger] es[j]).0 == key && es[j].1.session_id@
                            == session_id@;
                    if j < i {
                        assert(before.to_set().contains(key));
                    }
                }
            }
            assert(now =~= Set::new(
                |key: Seq<char>|
                    exists|j: int|
                        0 <= j < i + 1 && (#[trigger] es[j]).0 == key && es[j].1.session_id@
                            == session_id@,
            ));
        }
        i = i + 1;
    }
    proof {
        let es = terminals.entries_seq();
        let found = ids@.map_values(|k: String| k@).to_set();
        assert forall|key: Seq<char>| found.contains(key) <==> terminals_of(m0, session_id@).contains(key) by {
            if found.contains(key) {
                let j = choose|j: int|
                    0 <= j < n && (#[trigger] es[j]).0 == key && es[j].1.session_id@ == session_id@;
                Registry::<TerminalSession<H>>::lemma_map_at(es, j);
            }
            if terminals_of(m0, session_id@).contains(key) {
                assert(Registry::<TerminalSession<H>>::has_key(es, key));
                let j = choose|j: int| 0 <= j < es.len() && (#[trigger] es[j]).0 == key;
                Registry::<TerminalSession<H>>::lemma_map_at(es, j);
            }
        }
        assert(found =~= terminals_of(m0, session_id@));
        assert(found.intersect(m0.dom()) =~= found);
    }
    terminals.remove_keys(&ids)
}


/// After a session's terminals are taken out, none of its terminals is left,
/// and every terminal of another session is left as it was.
pub proof fn law_session_terminals_removed<H>(
    m: Map<Seq<char>, TerminalSession<H>>,
    session_id: Seq<char>,
    k: Seq<char>,
)
    ensures
        terminals_of(m.remove_keys(terminals_of(m, session_id)), session_id).is_empty(),
        m.contains_key(k) && m[k].session_id@ != session_id ==> m.remove_keys(
            terminals_of(m, session_id),
        ).contains_key(k) && m.remove_keys(terminals_of(m, session_id))[k] == m[k],
{
    let r = m.remove_keys(terminals_of(m, session_id));
    assert(terminals_of(r, session_id) =~= Set::empty());
}

/// A terminal's buffer never holds more than `MAX_BUFFER_BYTES` once it is
/// within that bound, and the newest output is kept: a chunk no larger than
/// the bound ends the buffer it is appended to.
pub proof fn law_append_keeps_newest(buffer: Seq<u8>, chunk: Seq<u8>)
    ensures
        buffer.len() <= MAX_BUFFER_BYTES ==> appended(buffer, chunk).len() <= MAX_BUFFER_BYTES,
        chunk.len() <= MAX_BUFFER_BYTES ==> appended(buffer, chunk).len() >= chunk.len()
            && appended(buffer, chunk).skip(appended(buffer, chunk).len() - chunk.len()) =~= chunk,
{
    if chunk.len() > 0 {
        let all = buffer + chunk;
        if all.len() > MAX_BUFFER_BYTES {
            let r = all.skip(all.len() - MAX_BUFFER_BYTES);
            if chunk.len() <= MAX_BUFFER_BYTES {
                assert forall|i: int| 0 <= i < chunk.len() implies r.skip(
                    r.len() - chunk.len(),
                )[i] == chunk[i] by {
                    assert(r.skip(r.len() - chunk.len())[i] == all[all.len() - chunk.len() + i]);
                }
            }
        } else if chunk.len() <= MAX_BUFFER_BYTES {
            assert forall|i: int| 0 <= i < chunk.len() implies all.skip(
                all.len() - chunk.len(),
            )[i] == chunk[i] by {
                assert(all.skip(all.len() - chunk.len())[i] == all[buffer.len() + i]);
            }
        }
    } else {
        assert(buffer.skip(buffer.len() as int) =~= chunk);
    }
}

/// A buffer after each of `chunks` is appended in turn.
pub open spec fn appended_all(buffer: Seq<u8>, chunks: Seq<Seq<u8>>) -> Seq<u8>
    decreases chunks.len(),
{
    if chunks.len() == 0 {
        buffer
    } else {
        appended(appended_all(buffer, chunks.drop_last()), chunks.last())
    }
}

/// The chunks one after another.
pub open spec fn joined(chunks: Seq<Seq<u8>>) -> Seq<u8>
    decreases chunks.len(),
{
    if chunks.len() == 0 {
        Seq::empty()
    } else {
        joined(chunks.drop_last()) + chunks.last()
    }
}

/// Output appended to a terminal's buffer is read back in order with
/// nothing lost, as long as the unread output stays within
/// `MAX_BUFFER_BYTES`.
pub proof fn law_output_read_back(buffer: Seq<u8>, chunks: Seq<Seq<u8>>)
    requires
        buffer.len() + joined(chunks).len() <= MAX_BUFFER_BYTES,
    ensures
        appended_all(buffer, chunks) == buffer + joined(chunks),
    decreases chunks.len(),
{
    if chunks.len() > 0 {
        let init = chunks.drop_last();
        assert(joined(chunks).len() == joined(init).len() + chunks.last().len());
        law_output_read_back(buffer, init);
        assert(buffer + joined(init) + chunks.last() =~= buffer + joined(chunks));
        if chunks.last().len() == 0 {
            assert(joined(chunks) =~= joined(init));
        }
    } else {
        assert(buffer + joined(chunks) =~= buffer);
    }
}

/// A stopped worker stays stopped; a worker stops exactly when it is told to
/// shut down; a resize never goes below the minimum size.
pub proof fn law_worker_transitions(
    phase: WorkerPhase,
    event: WorkerEvent,
    next: WorkerPhase,
    action: WorkerAction,
)
    requires
        worker_transition(phase, event, next, action),
    ensures
        phase is Stopped ==> next is Stopped,
        next is Stopped <==> action is Shutdown,
        action matches WorkerAction::Resize { cols, rows } ==> cols >= MIN_COLS && rows >= MIN_ROWS,
        action is Append ==> phase is Reading,
{
}

/// A write makes progress: each accepted byte moves the offset on, the
/// offset never passes the end of the data, and the channel is flushed only
/// once every byte was taken.
pub proof fn law_write_progress(offset: usize, len: usize, outcome: WriteOutcome)
    requires
        offset < len,
    ensures
        write_next(offset, len, outcome) matches WriteControl::Write { offset: o, pause } ==> offset
            <= o < len && (o == offset <==> pause),
        (outcome matches WriteOutcome::Wrote(n) && n > 0) ==> !(write_next(offset, len, outcome) matches WriteControl::Write { offset: o, .. } && o == offset),
        write_next(offset, len, outcome) is Flush ==> (outcome matches WriteOutcome::Wrote(n) && offset + n >= len),
{
}

/// Appending a non-empty chunk leaves the newest bytes of everything
/// written: the old buffer and the chunk together, cut from the front to
/// `MAX_BUFFER_BYTES` where they are longer. The buffer is always a suffix
/// of the old buffer followed by the chunk, so it never keeps older bytes
/// while dropping newer ones.
pub proof fn law_append_is_suffix(buffer: Seq<u8>, chunk: Seq<u8>)
    ensures
        chunk.len() == 0 ==> appended(buffer, chunk) == buffer,
        chunk.len() > 0 ==> appended(buffer, chunk).len() == (if buffer.len() + chunk.len()
            > MAX_BUFFER_BYTES {
            MAX_BUFFER_BYTES as nat
        } else {
            buffer.len() + chunk.len()
        }),
        chunk.len() > 0 ==> appended(buffer, chunk) =~= (buffer + chunk).skip(
            buffer.len() + chunk.len() - appended(buffer, chunk).len(),
        ),
        chunk.len() > 0 && buffer.len() + chunk.len() > MAX_BUFFER_BYTES ==> appended(buffer, chunk)
            =~= (buffer + chunk).skip(buffer.len() + chunk.len() - MAX_BUFFER_BYTES),
{
    if chunk.len() > 0 {
        let all = buffer + chunk;
        if all.len() <= MAX_BUFFER_BYTES {
            assert(all.skip(0) =~= all);
        }
    }
}

} // verus!
