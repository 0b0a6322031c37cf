use vstd::prelude::*;
use vstd::slice::slice_subrange;

verus! {

/// Which output stream of a child an output event comes from.
#[derive(Debug, Clone, Copy, PartialEq, Eq, Structural)]
pub enum StreamKind {
    /// The output side of a pseudo-terminal.
    Terminal,
    /// Standard output of a one-shot process.
    Stdout,
    /// Standard error of a one-shot process.
    Stderr,
}

/// An event delivered to the client, tagged with the id of its session or process.
#[derive(Debug, Clone, PartialEq, Eq)]
pub enum Event {
    /// A chunk of terminal output, or one line of a one-shot stream.
    Output { id: String, stream: StreamKind, chunk: String },
    /// The child exited; `code` is absent where the platform reports none.
    Exit { id: String, code: Option<i32> },
    /// The child could not be started or waited on.
    Error { id: String, message: String },
}

/// Mathematical form of [`Event`].
pub enum EventView {
    Output { id: Seq<char>, stream: StreamKind, chunk: Seq<char> },
    Exit { id: Seq<char>, code: Option<i32> },
    Error { id: Seq<char>, message: Seq<char> },
}

impl View for Event {
    type V = EventView;

    open spec fn view(&self) -> EventView {
        match self {
            Event::Output { id, stream, chunk } => EventView::Output {
                id: id@,
                stream: *stream,
                chunk: chunk@,
            },
            Event::Exit { id, code } => EventView::Exit { id: id@, code: *code },
            Event::Error { id, message } => EventView::Error { id: id@, message: message@ },
        }
    }
}

impl EventView {
    /// The id the event is tagged with.
    pub open spec fn id(self) -> Seq<char> {
        match self {
            EventView::Output { id, .. } => id,
            EventView::Exit { id, .. } => id,
            EventView::Error { id, .. } => id,
        }
    }

    /// Exit and error events end the event stream of their id.
    pub open spec fn is_terminal(self) -> bool {
        !(self is Output)
    }
}

/// How waiting on a child ended.
#[derive(Debug, Clone, PartialEq, Eq)]
pub enum ExitOutcome {
    /// The child exited, with its code where the platform reports one.
    Exited(Option<i32>),
    /// The operating system refused to report a wait status.
    WaitFailed(String),
}

/// Mathematical form of [`ExitOutcome`].
pub enum ExitOutcomeView {
    Exited(Option<i32>),
    WaitFailed(Seq<char>),
}

impl View for ExitOutcome {
    type V = ExitOutcomeView;

    open spec fn view(&self) -> ExitOutcomeView {
        match self {
            ExitOutcome::Exited(c) => ExitOutcomeView::Exited(*c),
            ExitOutcome::WaitFailed(m) => ExitOutcomeView::WaitFailed(m@),
        }
    }
}

/// The one event that ends the stream of `id`, given how its child ended.
pub open spec fn terminal_event(id: Seq<char>, outcome: ExitOutcomeView) -> EventView {
    match outcome {
        ExitOutcomeView::Exited(code) => EventView::Exit { id, code },
        ExitOutcomeView::WaitFailed(message) => EventView::Error { id, message },
    }
}

/// What lossy UTF-8 decoding makes of a byte sequence: invalid sequences are
/// replaced by U+FFFD, never dropped.
pub uninterp spec fn lossy_utf8(bytes: Seq<u8>) -> Seq<char>;

/// Relies on `String::from_utf8_lossy`: a function of the bytes alone, and
/// empty input decodes to the empty string.
#[verifier::external_body]
pub(crate) fn decode_lossy(bytes: &[u8]) -> (r: String)
    ensures
        r@ == lossy_utf8(bytes@),
        bytes@.len() == 0 ==> r@.len() == 0,
{
    String::from_utf8_lossy(bytes).into_owned()
}

/// Builds the terminal event of `id` for `outcome`.
pub fn terminal_event_for(id: String, outcome: ExitOutcome) -> (r: Event)
    ensures
        r@ == terminal_event(id@, outcome@),
{
    match outcome {
        ExitOutcome::Exited(code) => Event::Exit { id, code },
        ExitOutcome::WaitFailed(message) => Event::Error { id, message },
    }
}

/// The output event for a chunk read from the terminal of session `id`;
/// the bytes are decoded permissively and kept as one chunk.
pub fn terminal_output(id: String, bytes: &[u8]) -> (r: Event)
    ensures
        r@ == (EventView::Output { id: id@, stream: StreamKind::Terminal, chunk: lossy_utf8(bytes@) }),
{
    let chunk = decode_lossy(bytes);
    Event::Output { id, stream: StreamKind::Terminal, chunk }
}

/// The output event for one line read from a stream of process `id`.
pub fn line_output(id: String, stream: StreamKind, line: String) -> (r: Event)
    ensures
        r@ == (EventView::Output { id: id@, stream, chunk: line@ }),
{
    Event::Output { id, stream, chunk: line }
}

/// A line as read with its ending: without a final `\n`, and without a
/// `\r` just before that `\n`.
pub open spec fn line_body(raw: Seq<u8>) -> Seq<u8> {
    if raw.len() > 0 && raw.last() == 10u8 {
        let r = raw.drop_last();
        if r.len() > 0 && r.last() == 13u8 {
            r.drop_last()
        } else {
            r
        }
    } else {
        raw
    }
}

/// The output event for one line of a stream of process `id`, given the
/// line's raw bytes with their ending: the ending is dropped and the bytes
/// are decoded permissively, so an invalid sequence never ends the stream.
pub fn raw_line_output(id: String, stream: StreamKind, raw: &[u8]) -> (r: Event)
    ensures
        r@ == (EventView::Output { id: id@, stream, chunk: lossy_utf8(line_body(raw@)) }),
{
    let mut end = raw.len();
    if end > 0 && raw[end - 1] == 10u8 {
        end = end - 1;
        if end > 0 && raw[end - 1] == 13u8 {
            end = end - 1;
        }
    }
    let body = slice_subrange(raw, 0, end);
    assert(body@ =~= line_body(raw@));
    Event::Output { id, stream, chunk: decode_lossy(body) }
}

/// The error event for a process `id` that could not be started.
pub fn spawn_failed(id: String, message: String) -> (r: Event)
    ensures
        r@ == (EventView::Error { id: id@, message: message@ }),
        r@.is_terminal(),
{
    Event::Error { id, message }
}

/// The name of the client channel of an event: `term-data-`, `term-exit-`
/// or `term-error-` followed by the id.
pub open spec fn channel_of(e: EventView) -> Seq<char> {
    match e {
        EventView::Output { id, .. } => "term-data-"@ + id,
        EventView::Exit { id, .. } => "term-exit-"@ + id,
        EventView::Error { id, .. } => "term-error-"@ + id,
    }
}

impl Event {
    /// The client channel this event is delivered on.
    pub fn channel(&self) -> (r: String)
        ensures
            r@ == channel_of(self@),
    {
        match self {
            Event::Output { id, .. } => String::from_str("term-data-").concat(id.as_str()),
            Event::Exit { id, .. } => String::from_str("term-exit-").concat(id.as_str()),
            Event::Error { id, .. } => String::from_str("term-error-").concat(id.as_str()),
        }
    }

    /// Whether this event ends the stream of its id.
    pub fn is_terminal(&self) -> (r: bool)
        ensures
            r == self@.is_terminal(),
    {
        !matches!(self, Event::Output { .. })
    }
}

} // verus!
