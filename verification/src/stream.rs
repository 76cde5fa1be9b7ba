//! The stream lifecycle state machine.
//!
//! A stream is configured (filters, one time interval), started exactly once,
//! then pulled: records from the engine, elements from the current record,
//! decoded one by one into a single flat sequence. The machine here decides,
//! for every engine response, the next state and what a pull yields; a driver
//! performs the engine calls and feeds the responses back in.

use vstd::prelude::*;

use crate::element::{spec_create, Element, ElementError, RawElement, RawRecord};

verus! {

/// Interval end meaning an unbounded time window.
pub const FOREVER: u32 = 0;

/// Why a stream operation failed.
#[derive(Clone, Debug, Eq, PartialEq)]
pub enum BGPStreamError {
    /// The engine could not allocate a stream handle or record buffer.
    Construction,
    /// The engine rejected a filter expression, or it held a NUL character.
    InvalidFilter(String),
    /// A configuration or start call arrived once iteration had started.
    OperationOutOfOrder(String),
    /// The engine's start operation reported failure.
    StartFailed,
    /// The engine could not retrieve the next record.
    RecordGetFailure,
    /// One element failed to decode; later pulls may still succeed.
    ElementFailure(ElementError),
}

/// Lifecycle states, strictly forward-progressing but for the controlled
/// regression from `Ongoing` back to `Started` when a record runs out of
/// elements. `Failed` is the terminal state of a start that the engine
/// refused.
#[derive(Clone, Copy, Debug, Eq, PartialEq, Structural)]
pub enum StreamState {
    New,
    IntervalSet,
    Started,
    Ongoing,
    Complete,
    Failed,
}

/// True while configuration and start are still allowed.
pub open spec fn spec_configurable(st: StreamState) -> bool {
    st == StreamState::New || st == StreamState::IntervalSet
}

/// One observed interaction: a configuration or start call with the engine's
/// verdict, or an engine response to a record or element pull (for a record,
/// the signed return code; for an element, whether one was present).
pub enum StreamOp {
    AddFilter(bool),
    AddInterval,
    Start(bool),
    Record(i32),
    Element(bool),
}

/// The state after one interaction. An interaction whose state precondition
/// does not hold leaves the state unchanged.
pub open spec fn spec_step(st: StreamState, op: StreamOp) -> StreamState {
    match op {
        StreamOp::AddFilter(_) => st,
        StreamOp::AddInterval => if spec_configurable(st) {
            StreamState::IntervalSet
        } else {
            st
        },
        StreamOp::Start(ok) => if spec_configurable(st) {
            if ok {
                StreamState::Started
            } else {
                StreamState::Failed
            }
        } else {
            st
        },
        StreamOp::Record(rc) => if st == StreamState::Started {
            if rc > 0 {
                StreamState::Ongoing
            } else {
                StreamState::Complete
            }
        } else {
            st
        },
        StreamOp::Element(present) => if st == StreamState::Ongoing {
            if present {
                StreamState::Ongoing
            } else {
                StreamState::Started
            }
        } else {
            st
        },
    }
}

/// What the machine needs next to pull one more item of the flat sequence.
#[derive(Clone, Copy, Debug, Eq, PartialEq, Structural)]
pub enum PullRequest {
    /// The sequence has ended; pull nothing from the engine.
    Done,
    /// Pull the next record into the buffer.
    NeedRecord,
    /// Pull the next element from the current record.
    NeedElement,
}

/// What the engine must be asked in a given state.
pub open spec fn spec_next_request(st: StreamState) -> PullRequest {
    match st {
        StreamState::Started => PullRequest::NeedRecord,
        StreamState::Ongoing => PullRequest::NeedElement,
        _ => PullRequest::Done,
    }
}

/// What one pull of the flat sequence yields.
#[derive(Debug)]
pub enum PullOutcome {
    /// End of the sequence; every later pull yields this again.
    EndOfStream,
    /// A record-level failure (terminal) or one element's decode failure
    /// (not terminal).
    Failure(BGPStreamError),
    /// One decoded element.
    Item(Element),
}

/// The stream state machine: the lifecycle state plus the configuration it
/// has accepted, a mirror of what has been handed to the engine.
pub struct Stream {
    state: StreamState,
    filters: Vec<String>,
    interval: Option<(u32, u32)>,
}

proof fn lemma_deep_view_push<T: DeepView>(pre: Vec<T>, post: Vec<T>, x: T)
    requires
        post@ == pre@.push(x),
    ensures
        post.deep_view() == pre.deep_view().push(x.deep_view()),
{
    assert(post.deep_view() =~= pre.deep_view().push(x.deep_view())) by {
        assert forall|k: int| 0 <= k < post@.len() implies post.deep_view()[k]
            == pre.deep_view().push(x.deep_view())[k] by {
            assert(post.deep_view()[k] == post@[k].deep_view());
            if k < pre@.len() {
                assert(post@[k] == pre@[k]);
                assert(pre.deep_view()[k] == pre@[k].deep_view());
            } else {
                assert(post@[k] == x);
            }
        }
    }
}

/// True when the text holds a NUL character, which the engine's filter
/// parser cannot receive.
fn str_has_nul(s: &str) -> (b: bool)
    ensures
        b == s@.contains('\0'),
{
    let n = s.unicode_len();
    let mut i: usize = 0;
    while i < n
        invariant
            i <= n == s@.len(),
            forall|k: int| 0 <= k < i ==> s@[k] != '\0',
        decreases n - i,
    {
        if s.get_char(i) == '\0' {
            return true;
        }
        i = i + 1;
    }
    false
}

impl Stream {
    /// The lifecycle state.
    pub closed spec fn state_spec(&self) -> StreamState {
        self.state
    }

    /// The filter expressions the engine has accepted, in order.
    pub closed spec fn filters_spec(&self) -> Seq<Seq<char>> {
        self.filters.deep_view()
    }

    /// The registered time window, if any.
    pub closed spec fn interval_spec(&self) -> Option<(u32, u32)> {
        self.interval
    }

    /// True while configuration and start are still allowed.
    pub open spec fn configurable(&self) -> bool {
        spec_configurable(self.state_spec())
    }

    /// True once iteration has been started successfully.
    pub open spec fn iterating(&self) -> bool {
        self.state_spec() == StreamState::Started || self.state_spec() == StreamState::Ongoing
            || self.state_spec() == StreamState::Complete
    }

    /// A fresh, unconfigured stream.
    pub fn new() -> (s: Stream)
        ensures
            s.state_spec() == StreamState::New,
            s.filters_spec() == Seq::<Seq<char>>::empty(),
            s.interval_spec() is None,
    {
        let s = Stream { state: StreamState::New, filters: Vec::new(), interval: None };
        proof {
            assert(s.filters.deep_view() =~= Seq::<Seq<char>>::empty());
        }
        s
    }

    /// The current lifecycle state.
    pub fn state(&self) -> (st: StreamState)
        ensures
            st == self.state_spec(),
    {
        self.state
    }

    /// The filter expressions the engine has accepted so far, in order.
    pub fn filters(&self) -> (r: &Vec<String>)
        ensures
            r.deep_view() == self.filters_spec(),
    {
        &self.filters
    }

    /// The registered time window, if any.
    pub fn interval(&self) -> (r: Option<(u32, u32)>)
        ensures
            r == self.interval_spec(),
    {
        self.interval
    }

    /// Whether a configuration or start call would still be in order; a
    /// driver consults this before performing the engine call whose verdict
    /// it hands to [`Stream::add_filter`] or [`Stream::iter`].
    pub fn can_configure(&self) -> (b: bool)
        ensures
            b == self.configurable(),
    {
        self.state == StreamState::New || self.state == StreamState::IntervalSet
    }

    /// Registers one filter expression, `engine_accepted` being the engine
    /// parser's verdict on it. Valid only before iteration starts; the text
    /// is recorded verbatim exactly when the engine accepted it.
    pub fn add_filter(&mut self, filter: String, engine_accepted: bool) -> (r: Result<
        (),
        BGPStreamError,
    >)
        ensures
            final(self).state_spec() == spec_step(
                old(self).state_spec(),
                StreamOp::AddFilter(engine_accepted),
            ),
            final(self).interval_spec() == old(self).interval_spec(),
            !old(self).configurable() ==> (r matches Err(BGPStreamError::OperationOutOfOrder(m))
                && m@ == "Cannot add filter after running"@ && final(self).filters_spec()
                == old(self).filters_spec()),
            old(self).configurable() && filter@.contains('\0') ==> (r matches Err(
                BGPStreamError::InvalidFilter(f),
            ) && f@ == "Null character in filter string"@ && final(self).filters_spec()
                == old(self).filters_spec()),
            old(self).configurable() && !filter@.contains('\0') && !engine_accepted
                ==> (r matches Err(BGPStreamError::InvalidFilter(f)) && f@ == filter@
                && final(self).filters_spec() == old(self).filters_spec()),
            old(self).configurable() && !filter@.contains('\0') && engine_accepted ==> (r is Ok
                && final(self).filters_spec() == old(self).filters_spec().push(filter@)),
    {
        if !self.can_configure() {
            return Err(
                BGPStreamError::OperationOutOfOrder("Cannot add filter after running".to_owned()),
            );
        }
        if str_has_nul(filter.as_str()) {
            return Err(
                BGPStreamError::InvalidFilter("Null character in filter string".to_owned()),
            );
        }
        if !engine_accepted {
            return Err(BGPStreamError::InvalidFilter(filter));
        }
        let ghost pre = self.filters;
        self.filters.push(filter);
        proof {
            lemma_deep_view_push(pre, self.filters, filter);
        }
        Ok(())
    }

    /// Registers the time window `[begin_time, end_time)`, `end_time` of
    /// [`FOREVER`] meaning unbounded; both bounds are recorded verbatim,
    /// without local validation. Valid only before iteration starts.
    pub fn add_interval_filter(&mut self, begin_time: u32, end_time: u32) -> (r: Result<
        (),
        BGPStreamError,
    >)
        ensures
            final(self).state_spec() == spec_step(
                old(self).state_spec(),
                StreamOp::AddInterval,
            ),
            final(self).filters_spec() == old(self).filters_spec(),
            !old(self).configurable() ==> (r matches Err(BGPStreamError::OperationOutOfOrder(m))
                && m@ == "Cannot change interval after running"@ && final(self).interval_spec()
                == old(self).interval_spec()),
            old(self).configurable() ==> (r is Ok && final(self).interval_spec() == Some(
                (begin_time, end_time),
            )),
    {
        if !self.can_configure() {
            return Err(
                BGPStreamError::OperationOutOfOrder(
                    "Cannot change interval after running".to_owned(),
                ),
            );
        }
        self.state = StreamState::IntervalSet;
        self.interval = Some((begin_time, end_time));
        Ok(())
    }

    /// Requests the start of iteration, `engine_started` being the engine's
    /// verdict on its start operation. Valid only once, before iteration
    /// starts: on success the stream is started; on engine failure it is
    /// terminally failed.
    pub fn iter(&mut self, engine_started: bool) -> (r: Result<(), BGPStreamError>)
        ensures
            final(self).state_spec() == spec_step(
                old(self).state_spec(),
                StreamOp::Start(engine_started),
            ),
            final(self).filters_spec() == old(self).filters_spec(),
            final(self).interval_spec() == old(self).interval_spec(),
            !old(self).configurable() ==> (r matches Err(BGPStreamError::OperationOutOfOrder(m))
                && m@ == "Must start after interval is set and can only be done once"@),
            old(self).configurable() && engine_started ==> r is Ok,
            old(self).configurable() && !engine_started ==> r == Err::<(), BGPStreamError>(
                BGPStreamError::StartFailed,
            ),
    {
        if !self.can_configure() {
            return Err(
                BGPStreamError::OperationOutOfOrder(
                    "Must start after interval is set and can only be done once".to_owned(),
                ),
            );
        }
        if engine_started {
            self.state = StreamState::Started;
            Ok(())
        } else {
            self.state = StreamState::Failed;
            Err(BGPStreamError::StartFailed)
        }
    }

    /// What to ask the engine next; [`PullRequest::Done`] means the flat
    /// sequence has ended and nothing more is asked.
    pub fn next_request(&self) -> (r: PullRequest)
        requires
            self.iterating(),
        ensures
            r == spec_next_request(self.state_spec()),
    {
        match self.state {
            StreamState::Started => PullRequest::NeedRecord,
            StreamState::Ongoing => PullRequest::NeedElement,
            _ => PullRequest::Done,
        }
    }

    /// Feeds back the engine's return code for a record pull: negative is a
    /// terminal retrieval failure, zero terminal normal exhaustion, positive
    /// a record ready for element pulls. `None` means the pull goes on.
    pub fn on_record(&mut self, ret_code: i32) -> (r: Option<PullOutcome>)
        requires
            old(self).state_spec() == StreamState::Started,
        ensures
            final(self).state_spec() == spec_step(
                old(self).state_spec(),
                StreamOp::Record(ret_code),
            ),
            final(self).filters_spec() == old(self).filters_spec(),
            final(self).interval_spec() == old(self).interval_spec(),
            ret_code < 0 ==> (r matches Some(po) && po matches PullOutcome::Failure(
                BGPStreamError::RecordGetFailure,
            )),
            ret_code == 0 ==> (r matches Some(po) && po matches PullOutcome::EndOfStream),
            ret_code > 0 ==> r is None,
    {
        if ret_code < 0 {
            self.state = StreamState::Complete;
            Some(PullOutcome::Failure(BGPStreamError::RecordGetFailure))
        } else if ret_code == 0 {
            self.state = StreamState::Complete;
            Some(PullOutcome::EndOfStream)
        } else {
            self.state = StreamState::Ongoing;
            None
        }
    }

    /// Feeds back the engine's answer to an element pull: no element regresses
    /// to pulling records (`None`: the pull goes on against the next record);
    /// an element present is decoded against its parent record and yielded,
    /// its failure wrapped but never terminal.
    pub fn on_element(&mut self, elem: Option<RawElement>, record: &RawRecord) -> (r: Option<
        PullOutcome,
    >)
        requires
            old(self).state_spec() == StreamState::Ongoing,
        ensures
            final(self).state_spec() == spec_step(
                old(self).state_spec(),
                StreamOp::Element(elem is Some),
            ),
            final(self).filters_spec() == old(self).filters_spec(),
            final(self).interval_spec() == old(self).interval_spec(),
            elem is None ==> r is None,
            elem matches Some(re) ==> match spec_create(re, *record) {
                Ok(ev) => r matches Some(po) && po matches PullOutcome::Item(e) && e@ == ev,
                Err(err) => r matches Some(po) && po matches PullOutcome::Failure(
                    BGPStreamError::ElementFailure(ee),
                ) && ee@ == err,
            },
    {
        match elem {
            None => {
                self.state = StreamState::Started;
                None
            },
            Some(re) => {
                match Element::create(&re, record) {
                    Ok(e) => Some(PullOutcome::Item(e)),
                    Err(er) => Some(PullOutcome::Failure(BGPStreamError::ElementFailure(er))),
                }
            },
        }
    }
}

/// The teardown actions a stream's destruction performs, in order.
#[derive(Clone, Copy, Debug, Eq, PartialEq, Structural)]
pub enum TeardownStep {
    /// Signal stop-of-stream on the retrieval handle.
    StopStream,
    /// Destroy the retrieval handle.
    DestroyStream,
    /// Destroy the record buffer.
    DestroyRecord,
}

/// The fixed teardown order: a successfully allocated retrieval handle is
/// stopped then destroyed, exactly once each; a successfully allocated record
/// buffer is destroyed; a resource whose allocation never succeeded is
/// skipped.
pub open spec fn spec_teardown_steps(stream_allocated: bool, record_allocated: bool) -> Seq<
    TeardownStep,
> {
    (if stream_allocated {
        seq![TeardownStep::StopStream, TeardownStep::DestroyStream]
    } else {
        Seq::<TeardownStep>::empty()
    }) + (if record_allocated {
        seq![TeardownStep::DestroyRecord]
    } else {
        Seq::<TeardownStep>::empty()
    })
}

/// Plans the teardown of a stream's two engine resources, given which of
/// their allocations succeeded.
pub fn teardown_steps(stream_allocated: bool, record_allocated: bool) -> (r: Vec<TeardownStep>)
    ensures
        r@ == spec_teardown_steps(stream_allocated, record_allocated),
{
    let mut r: Vec<TeardownStep> = Vec::new();
    if stream_allocated {
        r.push(TeardownStep::StopStream);
        r.push(TeardownStep::DestroyStream);
    }
    if record_allocated {
        r.push(TeardownStep::DestroyRecord);
    }
    proof {
        assert(r@ =~= spec_teardown_steps(stream_allocated, record_allocated));
    }
    r
}

/// Configuration stays open before iteration: in a configurable state, adding
/// a filter or an interval leaves the stream configurable, so both operations
/// succeed any number of times before iteration starts.
pub proof fn lemma_configuration_open_before_start(st: StreamState, accepted: bool)
    requires
        spec_configurable(st),
    ensures
        spec_configurable(spec_step(st, StreamOp::AddFilter(accepted))),
        spec_configurable(spec_step(st, StreamOp::AddInterval)),
{
}

/// Iteration starts at most once: no interaction brings a stream that is no
/// longer configurable back to a configurable state, so after the first start
/// every configuration or start call is refused as out of order.
pub proof fn lemma_start_at_most_once(st: StreamState, op: StreamOp)
    requires
        !spec_configurable(st),
    ensures
        !spec_configurable(spec_step(st, op)),
{
}

/// Termination is idempotent: a complete stream stays complete under every
/// interaction, and each further pull asks the engine for nothing and yields
/// end-of-sequence.
pub proof fn lemma_termination_idempotent(op: StreamOp)
    ensures
        spec_step(StreamState::Complete, op) == StreamState::Complete,
        spec_next_request(StreamState::Complete) == PullRequest::Done,
{
}

} // verus!
