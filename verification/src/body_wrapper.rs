//! Assembly of a captured body from the chunks that stream through the
//! middleware.
//!
//! Every chunk (or stream error) that passes through the relayed body is also
//! handed to a [`BodyCollector`]. The collector concatenates the chunks in the
//! order they arrived and stops at the first stream error, which becomes the
//! result of the capture.

use vstd::prelude::*;

verus! {

/// Error of a body capture: the relayed stream failed, with the stream's message.
#[derive(Debug, Clone)]
pub enum BodyCaptureError {
    StreamError(String),
}

impl BodyCaptureError {
    /// The stream's message that the error carries.
    pub open spec fn message_spec(&self) -> Seq<char> {
        match self {
            BodyCaptureError::StreamError(m) => m@,
        }
    }

    /// The text of the error: `Body stream error: ` followed by the stream's message.
    pub fn describe(&self) -> (text: String)
        ensures
            text@ == "Body stream error: "@ + self.message_spec(),
    {
        match self {
            BodyCaptureError::StreamError(m) => {
                let mut text = String::new();
                text.append("Body stream error: ");
                text.append(m.as_str());
                text
            },
        }
    }
}

/// One item of a relayed body stream, seen abstractly: a chunk of bytes, or
/// a stream error with its message.
pub enum ChunkEvent {
    Data(Seq<u8>),
    Failure(Seq<char>),
}

/// The state of a capture, seen abstractly: the bytes gathered so far, or
/// the message of the stream error that ended the capture.
pub enum CaptureState {
    Gathering(Seq<u8>),
    Failed(Seq<char>),
}

/// One step of a capture: data is appended while gathering; the first
/// failure ends the capture; nothing changes once it has failed.
pub open spec fn capture_step(state: CaptureState, event: ChunkEvent) -> CaptureState {
    match state {
        CaptureState::Failed(m) => CaptureState::Failed(m),
        CaptureState::Gathering(bytes) => match event {
            ChunkEvent::Data(chunk) => CaptureState::Gathering(bytes + chunk),
            ChunkEvent::Failure(m) => CaptureState::Failed(m),
        },
    }
}

/// The state of a capture after the given events, starting from no bytes.
pub open spec fn capture_of(events: Seq<ChunkEvent>) -> CaptureState
    decreases events.len(),
{
    if events.len() == 0 {
        CaptureState::Gathering(Seq::empty())
    } else {
        capture_step(capture_of(events.drop_last()), events.last())
    }
}

/// The bytes the data events carry, concatenated in order.
pub open spec fn concat_data(events: Seq<ChunkEvent>) -> Seq<u8>
    decreases events.len(),
{
    if events.len() == 0 {
        Seq::empty()
    } else {
        let rest = concat_data(events.drop_last());
        match events.last() {
            ChunkEvent::Data(chunk) => rest + chunk,
            ChunkEvent::Failure(_) => rest,
        }
    }
}

/// Whether none of the events is a stream error.
pub open spec fn all_data(events: Seq<ChunkEvent>) -> bool {
    forall|i: int| 0 <= i < events.len() ==> events[i] is Data
}

/// A capture whose stream never failed holds exactly the concatenation of
/// the chunks that streamed through, in order: the captured body is the body
/// that was relayed.
pub proof fn lemma_capture_is_relayed_body(events: Seq<ChunkEvent>)
    requires
        all_data(events),
    ensures
        capture_of(events) == CaptureState::Gathering(concat_data(events)),
    decreases events.len(),
{
    if events.len() > 0 {
        let prefix = events.drop_last();
        assert(all_data(prefix)) by {
            assert forall|i: int| 0 <= i < prefix.len() implies prefix[i] is Data by {
                assert(prefix[i] == events[i]);
            }
        }
        lemma_capture_is_relayed_body(prefix);
        assert(events.last() == events[events.len() - 1]);
    }
}

/// Once a stream error is seen, later events change nothing: the capture
/// fails with the message of the first error.
pub proof fn lemma_first_failure_wins(events: Seq<ChunkEvent>, k: int)
    requires
        0 <= k < events.len(),
        events[k] is Failure,
        forall|i: int| 0 <= i < k ==> events[i] is Data,
    ensures
        capture_of(events) == CaptureState::Failed(events[k]->Failure_0),
    decreases events.len(),
{
    if k < events.len() - 1 {
        lemma_first_failure_wins(events.drop_last(), k);
    } else {
        let prefix = events.drop_last();
        assert(all_data(prefix)) by {
            assert forall|i: int| 0 <= i < prefix.len() implies prefix[i] is Data by {
                assert(prefix[i] == events[i]);
            }
        }
        lemma_capture_is_relayed_body(prefix);
    }
}

/// Watches one relayed body to its end: whether the stream completed or
/// failed, and, when it keeps bytes, the chunks that streamed through.
pub struct BodyCollector {
    bytes: Vec<u8>,
    failure: Option<String>,
    keep: bool,
}

impl BodyCollector {
    /// The abstract state of the capture.
    pub closed spec fn state(&self) -> CaptureState {
        match self.failure {
            Some(m) => CaptureState::Failed(m@),
            None => CaptureState::Gathering(self.bytes@),
        }
    }

    /// Whether the collector keeps the bytes that stream through (a capture),
    /// or only watches the stream to its end (a relay).
    pub closed spec fn keeps_bytes(&self) -> bool {
        self.keep
    }

    /// A collector that captures the body; it has gathered nothing yet.
    pub fn new() -> (c: Self)
        ensures
            c.state() == capture_of(Seq::empty()),
            c.keeps_bytes(),
    {
        BodyCollector { bytes: Vec::new(), failure: None, keep: true }
    }

    /// A collector that only watches the stream to its end, keeping no bytes.
    pub fn relay_only() -> (c: Self)
        ensures
            c.state() == capture_of(Seq::empty()),
            !c.keeps_bytes(),
    {
        BodyCollector { bytes: Vec::new(), failure: None, keep: false }
    }

    /// Takes in one chunk that streamed through: a capturing collector appends
    /// it while gathering; a relay keeps nothing. Returns whether the stream is
    /// still being followed afterwards (no error has been seen).
    pub fn accept_chunk(&mut self, chunk: &[u8]) -> (gathering: bool)
        ensures
            final(self).keeps_bytes() == old(self).keeps_bytes(),
            final(self).state() == capture_step(
                old(self).state(),
                ChunkEvent::Data(if old(self).keeps_bytes() { chunk@ } else { Seq::empty() }),
            ),
            gathering == (final(self).state() is Gathering),
    {
        if self.failure.is_some() {
            return false;
        }
        if !self.keep {
            assert(self.bytes@ + Seq::<u8>::empty() =~= self.bytes@);
            return true;
        }
        let ghost before = self.bytes@;
        let mut i: usize = 0;
        while i < chunk.len()
            invariant
                self.failure is None,
                self.keep,
                0 <= i <= chunk@.len(),
                self.bytes@ == before + chunk@.subrange(0, i as int),
            decreases chunk@.len() - i,
        {
            self.bytes.push(chunk[i]);
            i = i + 1;
            assert(chunk@.subrange(0, i as int) == chunk@.subrange(0, i - 1).push(chunk@[i - 1]));
        }
        assert(chunk@.subrange(0, chunk@.len() as int) == chunk@);
        true
    }

    /// Takes in a stream error with its message. The capture fails with this
    /// message unless it had already failed.
    pub fn accept_failure(&mut self, message: String)
        ensures
            final(self).keeps_bytes() == old(self).keeps_bytes(),
            final(self).state() == capture_step(old(self).state(), ChunkEvent::Failure(message@)),
    {
        if self.failure.is_none() {
            self.failure = Some(message);
        }
    }

    /// Whether the capture is still gathering.
    pub fn is_gathering(&self) -> (gathering: bool)
        ensures
            gathering == (self.state() is Gathering),
    {
        self.failure.is_none()
    }

    /// The captured body, or the stream error that ended the capture.
    pub fn finish(self) -> (result: Result<Vec<u8>, BodyCaptureError>)
        ensures
            match self.state() {
                CaptureState::Gathering(bytes) => result matches Ok(b) && b@ == bytes,
                CaptureState::Failed(m) => result matches Err(e) && e.message_spec() == m,
            },
    {
        match self.failure {
            Some(m) => Err(BodyCaptureError::StreamError(m)),
            None => Ok(self.bytes),
        }
    }

    /// How the watched stream ended: completed, with the captured body when
    /// the collector keeps bytes and no body when it only relays; or failed,
    /// with the stream error.
    pub fn finish_stream(self) -> (result: Result<Option<Vec<u8>>, BodyCaptureError>)
        ensures
            match self.state() {
                CaptureState::Gathering(bytes) => result matches Ok(body) && if self.keeps_bytes() {
                    body matches Some(b) && b@ == bytes
                } else {
                    body is None
                },
                CaptureState::Failed(m) => result matches Err(e) && e.message_spec() == m,
            },
    {
        let keep = self.keep;
        match self.finish() {
            Ok(bytes) => if keep {
                Ok(Some(bytes))
            } else {
                Ok(None)
            },
            Err(e) => Err(e),
        }
    }
}

/// A relay that keeps no bytes follows the same events to the same end as a
/// capture: it completes exactly when the capture would, and fails with the
/// same first error.
pub proof fn lemma_relay_ends_like_capture(events: Seq<ChunkEvent>)
    ensures
        (capture_of(events) is Gathering) == (capture_of(relay_events(events)) is Gathering),
        capture_of(events) is Gathering ==> capture_of(relay_events(events)) == CaptureState::Gathering(
            Seq::empty(),
        ),
        capture_of(events) matches CaptureState::Failed(m) ==> capture_of(relay_events(events))
            == CaptureState::Failed(m),
    decreases events.len(),
{
    if events.len() > 0 {
        lemma_relay_ends_like_capture(events.drop_last());
        assert(relay_events(events).drop_last() =~= relay_events(events.drop_last()));
        assert(relay_events(events).last() == relay_event(events.last()));
        if capture_of(events.drop_last()) is Gathering {
            assert(Seq::<u8>::empty() + Seq::<u8>::empty() =~= Seq::<u8>::empty());
        }
    }
}

/// What a relay sees of an event: data without its bytes, or the failure.
pub open spec fn relay_event(event: ChunkEvent) -> ChunkEvent {
    match event {
        ChunkEvent::Data(_) => ChunkEvent::Data(Seq::empty()),
        ChunkEvent::Failure(m) => ChunkEvent::Failure(m),
    }
}

/// What a relay sees of a sequence of events.
pub open spec fn relay_events(events: Seq<ChunkEvent>) -> Seq<ChunkEvent> {
    events.map_values(|e: ChunkEvent| relay_event(e))
}

} // verus!
