//! The per-substream dispatch state machine.
//!
//! The accept loop hands each negotiated substream to an independent task;
//! the task drives one request/response exchange by performing the action
//! this machine prescribes, then feeding the outcome back as the next event.
//! The machine never panics and never hangs: every state/event pair yields a
//! next state and an action, transport failure aborts only this substream,
//! and the terminal states are absorbing.

use vstd::prelude::*;

verus! {

/// Where one substream stands in its exchange.
#[derive(Clone, Copy, Debug, PartialEq, Eq, Structural)]
pub enum SubstreamState {
    /// A protocol was negotiated and the substream handed to the dispatcher.
    Negotiated,
    /// The identifier is being resolved through the router.
    Resolving,
    /// The request is being read and the handler invoked.
    Processing,
    /// A resolution or construction failure is being reported to the peer.
    RespondingError,
    /// The status was written; this many body chunks are still owed.
    Streaming {
        /// The number of chunks not yet written.
        remaining: u64,
    },
    /// The exchange finished and the substream closed cleanly.
    Closed,
    /// A transport failure tore this substream down.
    Aborted,
}

/// What the driving task observed since the last step.
#[derive(Clone, Copy, Debug, PartialEq, Eq, Structural)]
pub enum SubstreamEvent {
    /// The accept loop took ownership of the negotiated substream.
    Accepted,
    /// The router matched the identifier and the factory built a handler.
    ResolveOk,
    /// The router exhausted its chain without a match.
    ResolveNotFound,
    /// A matched factory failed to construct its handler.
    FactoryFailed,
    /// One full request was read from the substream.
    RequestReceived,
    /// The handler produced a response whose body holds this many chunks.
    ResponseReady {
        /// The number of chunks the response body will stream.
        chunks: u64,
    },
    /// The pending write completed.
    WriteCompleted,
    /// A read or write on the substream failed.
    TransportFailed,
}

/// What the driving task must do next.
#[derive(Clone, Copy, Debug, PartialEq, Eq, Structural)]
pub enum SubstreamAction {
    /// Resolve the negotiated identifier through the router.
    Resolve,
    /// Read one request from the substream.
    ReadRequest,
    /// Invoke the handler on the request just read.
    InvokeHandler,
    /// Write the response status to the substream.
    WriteStatus,
    /// Write the next body chunk to the substream.
    WriteChunk,
    /// Write the error response for a failed resolution or construction.
    WriteErrorResponse,
    /// Close the substream cleanly.
    CloseSubstream,
    /// Tear the substream down; nothing is retried at this layer.
    TearDown,
    /// Nothing: the substream already reached a terminal state.
    NoAction,
}

/// Whether a state is terminal: once closed or aborted, a substream never
/// acts again.
pub open spec fn is_terminal(s: SubstreamState) -> bool {
    s is Closed || s is Aborted
}

/// The transition table. Within one substream the request is fully read
/// before the handler runs, and chunks are written in the order the handler
/// produced them; a transport failure in any live state aborts this
/// substream alone, and an event that the current state cannot accept tears
/// the substream down rather than wedge it.
pub open spec fn step_spec(s: SubstreamState, e: SubstreamEvent) -> (SubstreamState,
    SubstreamAction,
) {
    if is_terminal(s) {
        (s, SubstreamAction::NoAction)
    } else if e is TransportFailed {
        (SubstreamState::Aborted, SubstreamAction::TearDown)
    } else {
        match (s, e) {
            (SubstreamState::Negotiated, SubstreamEvent::Accepted) => (
                SubstreamState::Resolving,
                SubstreamAction::Resolve,
            ),
            (SubstreamState::Resolving, SubstreamEvent::ResolveOk) => (
                SubstreamState::Processing,
                SubstreamAction::ReadRequest,
            ),
            (SubstreamState::Resolving, SubstreamEvent::ResolveNotFound) => (
                SubstreamState::RespondingError,
                SubstreamAction::WriteErrorResponse,
            ),
            (SubstreamState::Resolving, SubstreamEvent::FactoryFailed) => (
                SubstreamState::RespondingError,
                SubstreamAction::WriteErrorResponse,
            ),
            (SubstreamState::Processing, SubstreamEvent::RequestReceived) => (
                SubstreamState::Processing,
                SubstreamAction::InvokeHandler,
            ),
            (SubstreamState::Processing, SubstreamEvent::ResponseReady { chunks }) => (
                SubstreamState::Streaming { remaining: chunks },
                SubstreamAction::WriteStatus,
            ),
            (SubstreamState::Streaming { remaining }, SubstreamEvent::WriteCompleted) => {
                if remaining > 0 {
                    (
                        SubstreamState::Streaming { remaining: (remaining - 1) as u64 },
                        SubstreamAction::WriteChunk,
                    )
                } else {
                    (SubstreamState::Closed, SubstreamAction::CloseSubstream)
                }
            },
            (SubstreamState::RespondingError, SubstreamEvent::WriteCompleted) => (
                SubstreamState::Closed,
                SubstreamAction::CloseSubstream,
            ),
            _ => (SubstreamState::Aborted, SubstreamAction::TearDown),
        }
    }
}

/// One step of the dispatch machine: the next state and the action the
/// driving task must perform.
pub fn substream_step(s: SubstreamState, e: SubstreamEvent) -> (r: (
    SubstreamState,
    SubstreamAction,
))
    ensures
        r == step_spec(s, e),
{
    if matches!(s, SubstreamState::Closed) || matches!(s, SubstreamState::Aborted) {
        return (s, SubstreamAction::NoAction);
    }
    if matches!(e, SubstreamEvent::TransportFailed) {
        return (SubstreamState::Aborted, SubstreamAction::TearDown);
    }
    match (s, e) {
        (SubstreamState::Negotiated, SubstreamEvent::Accepted) => (
            SubstreamState::Resolving,
            SubstreamAction::Resolve,
        ),
        (SubstreamState::Resolving, SubstreamEvent::ResolveOk) => (
            SubstreamState::Processing,
            SubstreamAction::ReadRequest,
        ),
        (SubstreamState::Resolving, SubstreamEvent::ResolveNotFound) => (
            SubstreamState::RespondingError,
            SubstreamAction::WriteErrorResponse,
        ),
        (SubstreamState::Resolving, SubstreamEvent::FactoryFailed) => (
            SubstreamState::RespondingError,
            SubstreamAction::WriteErrorResponse,
        ),
        (SubstreamState::Processing, SubstreamEvent::RequestReceived) => (
            SubstreamState::Processing,
            SubstreamAction::InvokeHandler,
        ),
        (SubstreamState::Processing, SubstreamEvent::ResponseReady { chunks }) => (
            SubstreamState::Streaming { remaining: chunks },
            SubstreamAction::WriteStatus,
        ),
        (SubstreamState::Streaming { remaining }, SubstreamEvent::WriteCompleted) => {
            if remaining > 0 {
                (
                    SubstreamState::Streaming { remaining: remaining - 1 },
                    SubstreamAction::WriteChunk,
                )
            } else {
                (SubstreamState::Closed, SubstreamAction::CloseSubstream)
            }
        },
        (SubstreamState::RespondingError, SubstreamEvent::WriteCompleted) => (
            SubstreamState::Closed,
            SubstreamAction::CloseSubstream,
        ),
        _ => (SubstreamState::Aborted, SubstreamAction::TearDown),
    }
}

/// Runs the machine over a sequence of events, collecting the actions.
pub open spec fn run_steps(s: SubstreamState, events: Seq<SubstreamEvent>) -> (SubstreamState, Seq<
    SubstreamAction,
>)
    decreases events.len(),
{
    if events.len() == 0 {
        (s, Seq::empty())
    } else {
        let first = step_spec(s, events[0]);
        let rest = run_steps(first.0, events.skip(1));
        (rest.0, seq![first.1] + rest.1)
    }
}

/// A transport failure in any live state aborts the substream at once.
pub proof fn lemma_transport_failure_aborts(s: SubstreamState)
    requires
        !is_terminal(s),
    ensures
        step_spec(s, SubstreamEvent::TransportFailed) == (
            SubstreamState::Aborted,
            SubstreamAction::TearDown,
        ),
{
}

/// Terminal states are absorbing: once a substream is closed or aborted, no
/// event moves it or makes it act.
pub proof fn lemma_terminal_states_absorb(s: SubstreamState, e: SubstreamEvent)
    requires
        is_terminal(s),
    ensures
        step_spec(s, e) == (s, SubstreamAction::NoAction),
{
}

/// A body of `k` chunks is streamed with exactly `k` chunk writes: once the
/// status write completes, `k + 1` completed writes drive the machine to
/// `Closed`, emitting `WriteChunk` `k` times — once per chunk, in order —
/// and then `CloseSubstream`.
pub proof fn lemma_streaming_writes_each_chunk(k: u64)
    ensures
        ({
            let r = run_steps(
                SubstreamState::Streaming { remaining: k },
                Seq::new(k as nat + 1, |i: int| SubstreamEvent::WriteCompleted),
            );
            &&& r.0 == SubstreamState::Closed
            &&& r.1.len() == k as nat + 1
            &&& forall|i: int| 0 <= i < k ==> r.1[i] == SubstreamAction::WriteChunk
            &&& r.1[k as int] == SubstreamAction::CloseSubstream
        }),
    decreases k,
{
    let events = Seq::new(k as nat + 1, |i: int| SubstreamEvent::WriteCompleted);
    let first = step_spec(SubstreamState::Streaming { remaining: k }, events[0]);
    let rest = run_steps(first.0, events.skip(1));
    let r = run_steps(SubstreamState::Streaming { remaining: k }, events);
    assert(events[0] == SubstreamEvent::WriteCompleted);
    assert(r == (rest.0, seq![first.1] + rest.1));
    if k == 0 {
        assert(first == (SubstreamState::Closed, SubstreamAction::CloseSubstream));
        assert(events.skip(1) =~= Seq::<SubstreamEvent>::empty());
        assert(run_steps(SubstreamState::Closed, Seq::<SubstreamEvent>::empty()) == (
            SubstreamState::Closed,
            Seq::<SubstreamAction>::empty(),
        ));
        assert(r.1 =~= seq![SubstreamAction::CloseSubstream]);
    } else {
        lemma_streaming_writes_each_chunk((k - 1) as u64);
        let tail = Seq::new((k - 1) as nat + 1, |i: int| SubstreamEvent::WriteCompleted);
        assert(events.skip(1) =~= tail);
        assert(first == (
            SubstreamState::Streaming { remaining: (k - 1) as u64 },
            SubstreamAction::WriteChunk,
        ));
        let prev = run_steps(SubstreamState::Streaming { remaining: (k - 1) as u64 }, tail);
        assert(rest == prev);
        assert(forall|i: int| 1 <= i < k + 1 ==> r.1[i] == prev.1[i - 1]);
        assert(r.1[0] == SubstreamAction::WriteChunk);
    }
}

} // verus!
