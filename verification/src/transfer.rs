//! The transfer of one remote resource into a local sink, resumed from what
//! the sink already holds.
//!
//! No network or file is touched here. A [`Transfer`] is the state of one
//! download; the caller performs each [`FetchAction`] and reports what came
//! of it as a [`FetchEvent`]. The sink is appended to and never rewritten, so
//! what it holds in the end is what it held at the start followed by the
//! bytes of the `Append` actions, in the order in which they were handed out.
//!
//! A transfer connects once. Connecting may fail [`RETRY_BUDGET`] times, and
//! reading the body may fail [`RETRY_BUDGET`] times in a row; either ends the
//! transfer for good. A transfer that ended so is never taken up again by
//! itself, which bounds the failures that one transfer can go through. What
//! it wrote stays in the sink, and a later transfer into the same sink
//! resumes behind it.

use crate::decimal::{decimal, format_decimal};
use vstd::prelude::*;
use vstd::string::*;

verus! {

/// How many times in a row connecting, or reading the body, may fail.
pub const RETRY_BUDGET: u8 = 10;

/// Why a transfer was given up.
#[derive(Clone, Copy, Debug, PartialEq, Eq, Structural)]
pub enum FetchFailure {
    /// Connecting failed as often as the budget allows.
    ConnectBudgetExhausted,
    /// Reading the body failed as often in a row as the budget allows.
    BodyBudgetExhausted,
    /// The resource does not end within the 64-bit range of offsets.
    LengthOverflow,
    /// An event was reported that the action before it cannot lead to.
    UnexpectedEvent,
}

/// What a finished transfer has to tell.
#[derive(Clone, Copy, Debug, PartialEq, Eq, Structural)]
pub struct FetchReport {
    /// The number of bytes that the body delivered.
    pub received: u64,
    /// The length that the response declared, where it declared one.
    pub declared: Option<u64>,
}

/// The state of a transfer.
#[derive(Clone, Copy, Debug, PartialEq, Eq, Structural)]
pub enum Transfer {
    /// A connection is being sought.
    Connecting {
        /// The length of the sink: the offset to resume from.
        start: u64,
        /// The attempts that have failed so far.
        failures: u8,
    },
    /// The body is being read.
    Streaming {
        /// The length of the sink when the transfer began.
        start: u64,
        /// The bytes that the body has delivered so far.
        received: u64,
        /// The length that the response declared.
        declared: Option<u64>,
        /// The reads that have failed since the last chunk.
        errors: u8,
    },
    /// The body ended and the sink holds the resource.
    Finished(FetchReport),
    /// The transfer was given up.
    Failed(FetchFailure),
}

/// What the caller reports.
#[derive(Clone, Debug, PartialEq, Eq)]
pub enum FetchEvent {
    /// The request could not be sent, or no response came.
    ConnectFailed,
    /// A response came.
    Connected {
        /// The content length that it declares.
        declared_length: Option<u64>,
    },
    /// The body delivered a chunk.
    Chunk(Vec<u8>),
    /// Reading the body failed.
    BodyError,
    /// The body ended.
    EndOfBody,
}

/// An event as contracts see it.
pub enum FetchEventView {
    ConnectFailed,
    Connected { declared_length: Option<u64> },
    Chunk(Seq<u8>),
    BodyError,
    EndOfBody,
}

impl View for FetchEvent {
    type V = FetchEventView;

    open spec fn view(&self) -> FetchEventView {
        match self {
            FetchEvent::ConnectFailed => FetchEventView::ConnectFailed,
            FetchEvent::Connected { declared_length } => FetchEventView::Connected {
                declared_length: *declared_length,
            },
            FetchEvent::Chunk(bytes) => FetchEventView::Chunk(bytes@),
            FetchEvent::BodyError => FetchEventView::BodyError,
            FetchEvent::EndOfBody => FetchEventView::EndOfBody,
        }
    }
}

/// What the caller is to do next.
#[derive(Debug, PartialEq, Eq)]
pub enum FetchAction {
    /// Request the resource; where `resume_from` is given, ask for the bytes
    /// from that offset to the end. Then report `Connected` or
    /// `ConnectFailed`.
    Connect { resume_from: Option<u64> },
    /// Read the next chunk of the body. Then report `Chunk`, `BodyError` or
    /// `EndOfBody`.
    ReadChunk,
    /// Append these bytes to the sink, then go on as for `ReadChunk`.
    Append(Vec<u8>),
    /// Flush the sink: the transfer is done.
    Finish(FetchReport),
    /// Stop: the transfer has failed.
    Abort(FetchFailure),
}

/// An action as contracts see it.
pub enum FetchActionView {
    Connect { resume_from: Option<u64> },
    ReadChunk,
    Append(Seq<u8>),
    Finish(FetchReport),
    Abort(FetchFailure),
}

impl View for FetchAction {
    type V = FetchActionView;

    open spec fn view(&self) -> FetchActionView {
        match self {
            FetchAction::Connect { resume_from } => FetchActionView::Connect {
                resume_from: *resume_from,
            },
            FetchAction::ReadChunk => FetchActionView::ReadChunk,
            FetchAction::Append(bytes) => FetchActionView::Append(bytes@),
            FetchAction::Finish(report) => FetchActionView::Finish(*report),
            FetchAction::Abort(failure) => FetchActionView::Abort(*failure),
        }
    }
}

/// The offset to ask for when the sink holds `start` bytes: none for an
/// empty sink, which takes the whole resource.
pub open spec fn resume_point(start: u64) -> Option<u64> {
    if start > 0 {
        Some(start)
    } else {
        None
    }
}

/// The state in which a transfer into a sink of `sink_length` bytes begins.
pub open spec fn initial(sink_length: u64) -> Transfer {
    Transfer::Connecting { start: sink_length, failures: 0 }
}

/// A failed transfer and the action that says so.
pub open spec fn give_up(failure: FetchFailure) -> (Transfer, FetchActionView) {
    (Transfer::Failed(failure), FetchActionView::Abort(failure))
}

/// The state after `event`, and the action that follows it.
///
/// While connecting, a failure is answered by another attempt with the same
/// offset until the budget is used up. While streaming, a chunk is appended
/// and forgives the read errors before it; a read error is answered by
/// another read until the budget is used up in a row; the end of the body
/// finishes the transfer whatever length was declared. A transfer that has
/// ended stays as it is.
pub open spec fn step(state: Transfer, event: FetchEventView) -> (Transfer, FetchActionView) {
    match state {
        Transfer::Connecting { start, failures } => match event {
            FetchEventView::ConnectFailed => if failures + 1 >= RETRY_BUDGET {
                give_up(FetchFailure::ConnectBudgetExhausted)
            } else {
                (
                    Transfer::Connecting { start, failures: (failures + 1) as u8 },
                    FetchActionView::Connect { resume_from: resume_point(start) },
                )
            },
            FetchEventView::Connected { declared_length } => (
                Transfer::Streaming { start, received: 0, declared: declared_length, errors: 0 },
                FetchActionView::ReadChunk,
            ),
            _ => give_up(FetchFailure::UnexpectedEvent),
        },
        Transfer::Streaming { start, received, declared, errors } => match event {
            FetchEventView::Chunk(bytes) => if start + received + bytes.len() > u64::MAX {
                give_up(FetchFailure::LengthOverflow)
            } else {
                (
                    Transfer::Streaming {
                        start,
                        received: (received + bytes.len()) as u64,
                        declared,
                        errors: 0,
                    },
                    FetchActionView::Append(bytes),
                )
            },
            FetchEventView::BodyError => if errors + 1 >= RETRY_BUDGET {
                give_up(FetchFailure::BodyBudgetExhausted)
            } else {
                (
                    Transfer::Streaming { start, received, declared, errors: (errors + 1) as u8 },
                    FetchActionView::ReadChunk,
                )
            },
            FetchEventView::EndOfBody => (
                Transfer::Finished(FetchReport { received, declared }),
                FetchActionView::Finish(FetchReport { received, declared }),
            ),
            _ => give_up(FetchFailure::UnexpectedEvent),
        },
        Transfer::Finished(report) => (state, FetchActionView::Finish(report)),
        Transfer::Failed(failure) => (state, FetchActionView::Abort(failure)),
    }
}

/// What holds of every state that a transfer reaches: the failures counted
/// are within the budget, and the bytes in the sink are within the range of
/// offsets.
pub open spec fn within_budget(state: Transfer) -> bool {
    match state {
        Transfer::Connecting { failures, .. } => failures < RETRY_BUDGET,
        Transfer::Streaming { start, received, errors, .. } => errors < RETRY_BUDGET && start
            + received <= u64::MAX,
        _ => true,
    }
}

/// The bytes that an action adds to the sink.
pub open spec fn payload(action: FetchActionView) -> Seq<u8> {
    match action {
        FetchActionView::Append(bytes) => bytes,
        _ => Seq::empty(),
    }
}

/// The state after a run of events.
pub open spec fn state_after(state: Transfer, events: Seq<FetchEventView>) -> Transfer
    decreases events.len(),
{
    if events.len() == 0 {
        state
    } else {
        state_after(step(state, events.first()).0, events.drop_first())
    }
}

/// The bytes that the actions of a run of events add to the sink, in order.
pub open spec fn bytes_appended(state: Transfer, events: Seq<FetchEventView>) -> Seq<u8>
    decreases events.len(),
{
    if events.len() == 0 {
        Seq::empty()
    } else {
        payload(step(state, events.first()).1) + bytes_appended(
            step(state, events.first()).0,
            events.drop_first(),
        )
    }
}

/// The events of a body that delivers `chunks` one after the other.
pub open spec fn chunk_events(chunks: Seq<Seq<u8>>) -> Seq<FetchEventView> {
    Seq::new(chunks.len(), |i: int| FetchEventView::Chunk(chunks[i]))
}

/// The events of a response that delivers `chunks` and then ends.
pub open spec fn whole_response(declared_length: Option<u64>, chunks: Seq<Seq<u8>>) -> Seq<
    FetchEventView,
> {
    seq![FetchEventView::Connected { declared_length }] + chunk_events(chunks)
        + seq![FetchEventView::EndOfBody]
}

/// The events of a response that delivers `chunks` and is then cut off.
pub open spec fn cut_response(declared_length: Option<u64>, chunks: Seq<Seq<u8>>) -> Seq<
    FetchEventView,
> {
    seq![FetchEventView::Connected { declared_length }] + chunk_events(chunks)
}

/// The bytes that the body has delivered, as the state counts them; none
/// for a transfer that failed.
pub open spec fn received_so_far(state: Transfer) -> Option<u64> {
    match state {
        Transfer::Connecting { .. } => Some(0),
        Transfer::Streaming { received, .. } => Some(received),
        Transfer::Finished(report) => Some(report.received),
        Transfer::Failed(_) => None,
    }
}

/// No transfer goes beyond its budget: whatever events are reported, the
/// state that a transfer is in has counted fewer failed attempts to connect,
/// and fewer failed reads in a row, than the budget allows.
pub proof fn lemma_budget_is_kept(state: Transfer, events: Seq<FetchEventView>)
    requires
        within_budget(state),
    ensures
        within_budget(state_after(state, events)),
    decreases events.len(),
{
    if events.len() > 0 {
        lemma_budget_is_kept(step(state, events.first()).0, events.drop_first());
    }
}

/// A transfer that has failed stays failed.
pub proof fn lemma_failed_stays_failed(failure: FetchFailure, events: Seq<FetchEventView>)
    ensures
        state_after(Transfer::Failed(failure), events) == Transfer::Failed(failure),
    decreases events.len(),
{
    if events.len() > 0 {
        lemma_failed_stays_failed(failure, events.drop_first());
    }
}

/// The count of received bytes is the count of appended bytes: whatever
/// events are reported, a transfer that has not failed has handed out for
/// appending exactly as many bytes as its count has grown by.
pub proof fn lemma_received_counts_appended_bytes(state: Transfer, events: Seq<FetchEventView>)
    requires
        received_so_far(state) is Some,
        received_so_far(state_after(state, events)) is Some,
    ensures
        received_so_far(state).unwrap() + bytes_appended(state, events).len() == received_so_far(
            state_after(state, events),
        ).unwrap(),
    decreases events.len(),
{
    if events.len() > 0 {
        let next = step(state, events.first()).0;
        match next {
            Transfer::Failed(failure) => {
                lemma_failed_stays_failed(failure, events.drop_first());
            },
            _ => {
                lemma_received_counts_appended_bytes(next, events.drop_first());
            },
        }
    }
}

/// While streaming, a run of chunks that fits in the range of offsets is
/// appended whole and in order, and leaves a transfer that has received all
/// of it.
pub proof fn lemma_chunks_are_appended(
    start: u64,
    received: u64,
    declared: Option<u64>,
    errors: u8,
    chunks: Seq<Seq<u8>>,
    tail: Seq<FetchEventView>,
)
    requires
        start + received + chunks.flatten().len() <= u64::MAX,
    ensures
        state_after(
            Transfer::Streaming { start, received, declared, errors },
            chunk_events(chunks) + tail,
        ) == state_after(
            Transfer::Streaming {
                start,
                received: (received + chunks.flatten().len()) as u64,
                declared,
                errors: if chunks.len() == 0 {
                    errors
                } else {
                    0
                },
            },
            tail,
        ),
        bytes_appended(
            Transfer::Streaming { start, received, declared, errors },
            chunk_events(chunks) + tail,
        ) == chunks.flatten() + bytes_appended(
            Transfer::Streaming {
                start,
                received: (received + chunks.flatten().len()) as u64,
                declared,
                errors: if chunks.len() == 0 {
                    errors
                } else {
                    0
                },
            },
            tail,
        ),
    decreases chunks.len(),
{
    if chunks.len() > 0 {
        let events = chunk_events(chunks) + tail;
        let rest = chunks.drop_first();
        assert(events.drop_first() =~= chunk_events(rest) + tail);
        let next = (received + chunks.first().len()) as u64;
        lemma_chunks_are_appended(start, next, declared, 0, rest, tail);
    }
}

/// A response that delivers `chunks` and then ends finishes the transfer,
/// whatever length it declared, and adds to the sink exactly the bytes of
/// the chunks, in order.
pub proof fn lemma_whole_response_finishes(
    sink_length: u64,
    declared_length: Option<u64>,
    chunks: Seq<Seq<u8>>,
)
    requires
        sink_length + chunks.flatten().len() <= u64::MAX,
    ensures
        state_after(initial(sink_length), whole_response(declared_length, chunks))
            == Transfer::Finished(
            FetchReport { received: chunks.flatten().len() as u64, declared: declared_length },
        ),
        bytes_appended(initial(sink_length), whole_response(declared_length, chunks))
            == chunks.flatten(),
{
    let events = whole_response(declared_length, chunks);
    let tail = seq![FetchEventView::EndOfBody];
    assert(events.drop_first() =~= chunk_events(chunks) + tail);
    lemma_chunks_are_appended(sink_length, 0, declared_length, 0, chunks, tail);
    let last = Transfer::Streaming {
        start: sink_length,
        received: chunks.flatten().len() as u64,
        declared: declared_length,
        errors: 0,
    };
    let done = step(last, tail.first()).0;
    assert(state_after(done, tail.drop_first()) == done);
    assert(bytes_appended(done, tail.drop_first()) =~= Seq::<u8>::empty());
}

/// A response that delivers `chunks` and is then cut off has added to the
/// sink exactly the bytes of the chunks, in order.
pub proof fn lemma_cut_response_appends(
    sink_length: u64,
    declared_length: Option<u64>,
    chunks: Seq<Seq<u8>>,
)
    requires
        sink_length + chunks.flatten().len() <= u64::MAX,
    ensures
        bytes_appended(initial(sink_length), cut_response(declared_length, chunks))
            == chunks.flatten(),
{
    let events = cut_response(declared_length, chunks);
    let tail = Seq::<FetchEventView>::empty();
    assert(events.drop_first() =~= chunk_events(chunks) + tail);
    lemma_chunks_are_appended(sink_length, 0, declared_length, 0, chunks, tail);
}

/// What a server that holds `resource` sends in answer to a request: the
/// bytes from the offset asked for to the end, all of them where none was
/// asked for.
pub open spec fn served(resource: Seq<u8>, resume_from: Option<u64>) -> Seq<u8> {
    match resume_from {
        Some(offset) => resource.skip(offset as int),
        None => resource,
    }
}

/// Resuming gives the same file as one pass. Let a server hold `resource`
/// and answer each request as [`served`] says, in chunks of its choosing. A
/// first transfer into an empty sink is cut off after the chunks `first`,
/// which are a part of the resource; a second transfer into the same sink
/// receives the answer to its request as the chunks `rest`. Then the sink
/// holds the resource, byte for byte, as it does after one transfer that
/// receives the answer to its request as the chunks `whole`.
pub proof fn lemma_resumed_transfer_completes_the_resource(
    resource: Seq<u8>,
    first: Seq<Seq<u8>>,
    rest: Seq<Seq<u8>>,
    whole: Seq<Seq<u8>>,
    declared_first: Option<u64>,
    declared_rest: Option<u64>,
    declared_whole: Option<u64>,
)
    requires
        resource.len() <= u64::MAX,
        first.flatten().len() < resource.len(),
        first.flatten() == resource.take(first.flatten().len() as int),
        rest.flatten() == served(resource, resume_point(first.flatten().len() as u64)),
        whole.flatten() == served(resource, resume_point(0)),
    ensures
        ({
            let written = bytes_appended(initial(0), cut_response(declared_first, first));
            let resumed = initial(written.len() as u64);
            let second = whole_response(declared_rest, rest);
            let single = whole_response(declared_whole, whole);
            &&& written == first.flatten()
            &&& state_after(resumed, second) is Finished
            &&& state_after(initial(0), single) is Finished
            &&& written + bytes_appended(resumed, second) == resource
            &&& bytes_appended(initial(0), single) == resource
        }),
{
    let k = first.flatten().len();
    lemma_cut_response_appends(0, declared_first, first);
    lemma_whole_response_finishes(k as u64, declared_rest, rest);
    lemma_whole_response_finishes(0, declared_whole, whole);
}

/// The text of a `Range` header that asks for the bytes from `offset` on.
pub open spec fn range_header(offset: u64) -> Seq<char> {
    "bytes="@ + decimal(offset as nat) + "-"@
}

impl FetchReport {
    /// Whether a length was declared that differs from what was received.
    /// Such a transfer is accepted all the same; the caller may warn.
    pub open spec fn mismatch(self) -> bool {
        self.declared matches Some(expected) && expected != self.received
    }

    /// Whether a length was declared that differs from what was received.
    pub fn length_mismatch(&self) -> (r: bool)
        ensures
            r == self.mismatch(),
    {
        match self.declared {
            Some(expected) => expected != self.received,
            None => false,
        }
    }
}

/// Begins the transfer of a resource into a sink that holds `sink_length`
/// bytes: the first action is to connect, asking for the bytes from
/// `sink_length` on unless the sink is empty.
pub fn download_ts_to(sink_length: u64) -> (r: (Transfer, FetchAction))
    ensures
        r.0 == initial(sink_length),
        r.1@ == (FetchActionView::Connect { resume_from: resume_point(sink_length) }),
        within_budget(r.0),
{
    let resume_from = if sink_length > 0 { Some(sink_length) } else { None };
    (Transfer::Connecting { start: sink_length, failures: 0 }, FetchAction::Connect { resume_from })
}

/// The value of the `Range` header for a request that resumes at `offset`.
pub fn range_header_value(offset: u64) -> (r: String)
    ensures
        r@ == range_header(offset),
{
    let mut text = String::from_str("bytes=");
    text.append(format_decimal(offset).as_str());
    text.append("-");
    text
}

impl Transfer {
    /// Whether the transfer has ended, well or badly.
    pub open spec fn ended(self) -> bool {
        self is Finished || self is Failed
    }

    /// Whether the transfer has ended, well or badly.
    pub fn is_ended(&self) -> (r: bool)
        ensures
            r == self.ended(),
    {
        match self {
            Transfer::Finished(_) => true,
            Transfer::Failed(_) => true,
            _ => false,
        }
    }

    /// Takes an event and says what to do next: see [`step`].
    pub fn on_event(self, event: FetchEvent) -> (r: (Transfer, FetchAction))
        ensures
            (r.0, r.1@) == step(self, event@),
            within_budget(self) ==> within_budget(r.0),
    {
        match self {
            Transfer::Connecting { start, failures } => match event {
                FetchEvent::ConnectFailed => {
                    if failures >= RETRY_BUDGET - 1 {
                        abort(FetchFailure::ConnectBudgetExhausted)
                    } else {
                        let resume_from = if start > 0 { Some(start) } else { None };
                        (
                            Transfer::Connecting { start, failures: failures + 1 },
                            FetchAction::Connect { resume_from },
                        )
                    }
                },
                FetchEvent::Connected { declared_length } => (
                    Transfer::Streaming { start, received: 0, declared: declared_length, errors: 0 },
                    FetchAction::ReadChunk,
                ),
                _ => abort(FetchFailure::UnexpectedEvent),
            },
            Transfer::Streaming { start, received, declared, errors } => match event {
                FetchEvent::Chunk(bytes) => {
                    let length = bytes.len() as u64;
                    if received > u64::MAX - start || length > u64::MAX - start - received {
                        abort(FetchFailure::LengthOverflow)
                    } else {
                        (
                            Transfer::Streaming {
                                start,
                                received: received + length,
                                declared,
                                errors: 0,
                            },
                            FetchAction::Append(bytes),
                        )
                    }
                },
                FetchEvent::BodyError => {
                    if errors >= RETRY_BUDGET - 1 {
                        abort(FetchFailure::BodyBudgetExhausted)
                    } else {
                        (
                            Transfer::Streaming { start, received, declared, errors: errors + 1 },
                            FetchAction::ReadChunk,
                        )
                    }
                },
                FetchEvent::EndOfBody => {
                    let report = FetchReport { received, declared };
                    (Transfer::Finished(report), FetchAction::Finish(report))
                },
                _ => abort(FetchFailure::UnexpectedEvent),
            },
            Transfer::Finished(report) => (self, FetchAction::Finish(report)),
            Transfer::Failed(failure) => (self, FetchAction::Abort(failure)),
        }
    }
}

/// A failed transfer and the action that says so.
fn abort(failure: FetchFailure) -> (r: (Transfer, FetchAction))
    ensures
        (r.0, r.1@) == give_up(failure),
{
    (Transfer::Failed(failure), FetchAction::Abort(failure))
}

} // verus!
