//! The request state machine: build the context, open the stream, decode and
//! deliver fragments, persist the finished exchange. The caller performs each
//! action it is handed (a request, a read, a write) and reports back what
//! happened as the next event.
use vstd::prelude::*;
use vstd::string::StringExecFns;
use crate::clock::{now, Timestamp};
use crate::context::{
    build_context, context_messages, images_view, messages_view, strings_view, ContextMessage,
};
use crate::frame::{frames_view, step, DecoderState, Frame, FrameDecoder, FrameView};
use crate::records::{ChatHistory, ChatResponse, NewChatHistory};

verus! {

/// Why a request ended without a saved answer.
#[derive(PartialEq, Eq, Structural, Clone, Copy, Debug)]
pub enum AbortReason {
    HistoryFetchFailed,
    RequestFailed,
    StreamInterrupted,
    PersistenceFailed,
}

/// Where a request stands.
#[derive(PartialEq, Eq, Structural, Clone, Copy, Debug)]
pub enum Stage {
    BuildingContext,
    Requesting,
    Streaming,
    Persisting,
    Done,
    Aborted(AbortReason),
}

/// How a request failed. Only `PersistenceFailed` comes with an answer: it
/// was produced and shown, but not saved.
pub enum OrchestratorError {
    HistoryFetchFailed,
    RequestFailed,
    StreamInterrupted,
    PersistenceFailed(ChatResponse),
}

/// What is sent to the completion service.
pub struct CompletionRequest {
    pub model: String,
    pub messages: Vec<ContextMessage>,
    pub stream: bool,
    pub api_key: String,
}

/// What the caller observed after performing the last action.
pub enum Event {
    /// The stored history of the session, oldest first.
    HistoryLoaded(Vec<ChatHistory>),
    HistoryFailed,
    /// The service accepted the request and the response body is open.
    StreamOpened,
    /// Authentication, network or status failure before any byte arrived.
    RequestRejected,
    /// The next bytes of the response body.
    Chunk(Vec<u8>),
    /// The body ended before the end marker.
    StreamEnded,
    /// The transport failed while reading the body.
    StreamFailed,
    Persisted,
    PersistFailed,
}

/// What the caller is to do next.
pub enum Action {
    /// Send this request and open its response stream.
    OpenStream(CompletionRequest),
    /// Deliver these fragments to the sink, in order, then read the next chunk.
    Read(Vec<String>),
    /// Deliver these fragments to the sink, in order, then write this record.
    Persist(Vec<String>, NewChatHistory),
    /// The request is over.
    Finish(Result<ChatResponse, OrchestratorError>),
    /// The event does not belong to the current stage; nothing changed.
    Ignored,
}

/// The answer text that a run of frames adds up to.
pub open spec fn accumulated(frames: Seq<FrameView>) -> Seq<char>
    decreases frames.len(),
{
    if frames.len() == 0 {
        seq![]
    } else {
        let a = accumulated(frames.drop_last());
        match frames.last() {
            FrameView::Delta(s) => a + s,
            _ => a,
        }
    }
}

/// The content fragments among a run of frames, in order.
pub open spec fn deltas(frames: Seq<FrameView>) -> Seq<Seq<char>>
    decreases frames.len(),
{
    if frames.len() == 0 {
        seq![]
    } else {
        let a = deltas(frames.drop_last());
        match frames.last() {
            FrameView::Delta(s) => a.push(s),
            _ => a,
        }
    }
}

pub struct OrchestratorView {
    pub stage: Stage,
    pub session_id: Seq<char>,
    pub question: Seq<char>,
    pub images: Seq<Seq<char>>,
    pub model: Seq<char>,
    pub api_key: Seq<char>,
    pub decoder: DecoderState,
    /// Every frame decoded so far.
    pub frames: Seq<FrameView>,
    pub answer: Seq<char>,
    /// When the stream completed, once it has.
    pub completed_at: Option<(int, Seq<char>)>,
}

/// One request from submission to its end.
pub struct Orchestrator {
    stage: Stage,
    session_id: String,
    message: String,
    base64_images: Option<Vec<String>>,
    model: String,
    api_key: String,
    decoder: FrameDecoder,
    frames: Ghost<Seq<FrameView>>,
    answer: String,
    completed_at: Option<Timestamp>,
}

impl View for Orchestrator {
    type V = OrchestratorView;

    closed spec fn view(&self) -> OrchestratorView {
        OrchestratorView {
            stage: self.stage,
            session_id: self.session_id@,
            question: self.message@,
            images: images_view(self.base64_images),
            model: self.model@,
            api_key: self.api_key@,
            decoder: self.decoder@,
            frames: self.frames@,
            answer: self.answer@,
            completed_at: match self.completed_at {
                Some(t) => Some((t.micros as int, t.text@)),
                None => None,
            },
        }
    }
}

/// The same submission in both views.
pub open spec fn same_submission(a: OrchestratorView, b: OrchestratorView) -> bool {
    &&& a.session_id == b.session_id
    &&& a.question == b.question
    &&& a.images == b.images
    &&& a.model == b.model
    &&& a.api_key == b.api_key
}

/// What every request satisfies, seen from outside: the answer is what the
/// decoded frames add up to; a stream that is still read has not ended;
/// before the stream opens nothing is decoded and the decoder is fresh.
pub open spec fn view_wf(v: OrchestratorView) -> bool {
    &&& v.answer == accumulated(v.frames)
    &&& (v.stage == Stage::Streaming ==> !v.decoder.done)
    &&& ((v.stage == Stage::BuildingContext || v.stage == Stage::Requesting) ==> v.frames.len()
        == 0 && v.decoder == crate::frame::initial_state())
}

/// The record that a completed stream persists.
pub open spec fn record_matches(r: NewChatHistory, v: OrchestratorView) -> bool {
    &&& r.session_id@ == v.session_id
    &&& r.question@ == v.question
    &&& r.answer@ == v.answer
    &&& v.completed_at matches Some(t) && r.created_at as int == t.0
}

/// The response that a completed stream returns.
pub open spec fn response_matches(r: ChatResponse, v: OrchestratorView) -> bool {
    &&& r.response@ == v.answer
    &&& v.completed_at matches Some(t) && r.created_at@ == t.1
}

/// Nothing that the stream decides has changed.
pub open spec fn stream_unchanged(v: OrchestratorView, w: OrchestratorView) -> bool {
    &&& w.decoder == v.decoder
    &&& w.frames == v.frames
    &&& w.answer == v.answer
    &&& w.completed_at == v.completed_at
}

/// How one event moves a request from `v` to `w`, and the action that it
/// hands back.
pub open spec fn transition(v: OrchestratorView, event: Event, w: OrchestratorView, action: Action) -> bool {
    match (v.stage, event) {
        (Stage::BuildingContext, Event::HistoryLoaded(h)) => {
            &&& stream_unchanged(v, w)
            &&& if v.api_key.len() == 0 {
                &&& w.stage == Stage::Aborted(AbortReason::RequestFailed)
                &&& action matches Action::Finish(Err(OrchestratorError::RequestFailed))
            } else {
                &&& w.stage == Stage::Requesting
                &&& action matches Action::OpenStream(req)
                &&& req.model@ == v.model
                &&& req.api_key@ == v.api_key
                &&& req.stream
                &&& messages_view(req.messages@) == context_messages(h@, v.question, v.images)
            }
        },
        (Stage::BuildingContext, Event::HistoryFailed) => {
            &&& stream_unchanged(v, w)
            &&& w.stage == Stage::Aborted(AbortReason::HistoryFetchFailed)
            &&& action matches Action::Finish(Err(OrchestratorError::HistoryFetchFailed))
        },
        (Stage::Requesting, Event::StreamOpened) => {
            &&& stream_unchanged(v, w)
            &&& w.stage == Stage::Streaming
            &&& action matches Action::Read(f) && f@.len() == 0
        },
        (Stage::Requesting, Event::RequestRejected) => {
            &&& stream_unchanged(v, w)
            &&& w.stage == Stage::Aborted(AbortReason::RequestFailed)
            &&& action matches Action::Finish(Err(OrchestratorError::RequestFailed))
        },
        (Stage::Streaming, Event::Chunk(bytes)) => {
            let s = step(v.decoder, bytes@);
            &&& w.decoder == s.0
            &&& w.frames == v.frames + s.1
            &&& if s.0.done {
                &&& w.stage == Stage::Persisting
                &&& action matches Action::Persist(f, rec)
                &&& strings_view(f@) == deltas(s.1)
                &&& record_matches(rec, w)
            } else {
                &&& w.stage == Stage::Streaming
                &&& w.completed_at == v.completed_at
                &&& action matches Action::Read(f)
                &&& strings_view(f@) == deltas(s.1)
            }
        },
        (Stage::Streaming, Event::StreamEnded) | (Stage::Streaming, Event::StreamFailed) => {
            &&& stream_unchanged(v, w)
            &&& w.stage == Stage::Aborted(AbortReason::StreamInterrupted)
            &&& action matches Action::Finish(Err(OrchestratorError::StreamInterrupted))
        },
        (Stage::Persisting, Event::Persisted) => {
            &&& stream_unchanged(v, w)
            &&& w.stage == Stage::Done
            &&& action matches Action::Finish(Ok(r))
            &&& response_matches(r, w)
        },
        (Stage::Persisting, Event::PersistFailed) => {
            &&& stream_unchanged(v, w)
            &&& w.stage == Stage::Aborted(AbortReason::PersistenceFailed)
            &&& action matches Action::Finish(Err(OrchestratorError::PersistenceFailed(r)))
            &&& response_matches(r, w)
        },
        _ => {
            &&& w == v
            &&& action is Ignored
        },
    }
}

/// A frame that is not JSON leaves the accumulated answer as it was,
/// wherever it stands among the other frames.
pub proof fn lemma_unparseable_keeps_answer(a: Seq<FrameView>, b: Seq<FrameView>)
    ensures
        accumulated(a + seq![FrameView::Unparseable] + b) == accumulated(a + b),
    decreases b.len(),
{
    let u = a + seq![FrameView::Unparseable];
    if b.len() == 0 {
        assert(u + b =~= a.push(FrameView::Unparseable));
        assert(a.push(FrameView::Unparseable).drop_last() =~= a);
        assert(a + b =~= a);
    } else {
        lemma_unparseable_keeps_answer(a, b.drop_last());
        assert((u + b).drop_last() =~= u + b.drop_last());
        assert((a + b).drop_last() =~= a + b.drop_last());
        assert((u + b).last() == b.last());
        assert((a + b).last() == b.last());
    }
}

/// The accumulated answer is exactly the delivered fragments joined in the
/// order they were delivered.
pub proof fn lemma_answer_is_joined_fragments(frames: Seq<FrameView>)
    ensures
        accumulated(frames) == deltas(frames).flatten(),
    decreases frames.len(),
{
    if frames.len() == 0 {
        assert(deltas(frames).flatten() =~= Seq::<char>::empty());
    } else {
        lemma_answer_is_joined_fragments(frames.drop_last());
        match frames.last() {
            FrameView::Delta(s) => {
                deltas(frames.drop_last()).lemma_flatten_push(s);
            },
            _ => {},
        }
    }
}

proof fn lemma_accumulate_push(x: Seq<FrameView>, f: FrameView)
    ensures
        accumulated(x.push(f)) == match f {
            FrameView::Delta(s) => accumulated(x) + s,
            _ => accumulated(x),
        },
        deltas(x.push(f)) == match f {
            FrameView::Delta(s) => deltas(x).push(s),
            _ => deltas(x),
        },
{
    assert(x.push(f).drop_last() =~= x);
}

impl Orchestrator {
    /// The answer is what the decoded frames add up to; the decoder keeps
    /// its own invariant; a stream that is still read has not ended; a
    /// completion time exists exactly from the end of the stream on; nothing
    /// is decoded before the stream opens.
    pub closed spec fn wf(&self) -> bool {
        let v = self@;
        &&& self.decoder.wf()
        &&& v.answer == accumulated(v.frames)
        &&& (v.stage == Stage::Streaming ==> !v.decoder.done)
        &&& ((v.stage == Stage::BuildingContext || v.stage == Stage::Requesting) ==> v.frames.len()
            == 0 && v.decoder == crate::frame::initial_state())
        &&& ((v.stage == Stage::Persisting || v.stage == Stage::Done || v.stage == Stage::Aborted(
            AbortReason::PersistenceFailed,
        )) <==> v.completed_at is Some)
    }

    /// Starts a request; the caller then loads the session's history and
    /// reports it with `HistoryLoaded` or `HistoryFailed`.
    pub fn new(
        session_id: String,
        message: String,
        base64_images: Option<Vec<String>>,
        model: String,
        api_key: String,
    ) -> (r: Orchestrator)
        ensures
            r.wf(),
            view_wf(r@),
            r@.stage == Stage::BuildingContext,
            r@.session_id == session_id@,
            r@.question == message@,
            r@.images == images_view(base64_images),
            r@.model == model@,
            r@.api_key == api_key@,
            r@.frames.len() == 0,
            r@.answer.len() == 0,
    {
        Orchestrator {
            stage: Stage::BuildingContext,
            session_id,
            message,
            base64_images,
            model,
            api_key,
            decoder: FrameDecoder::new(),
            frames: Ghost(Seq::empty()),
            answer: String::new(),
            completed_at: None,
        }
    }

    pub fn stage(&self) -> (r: Stage)
        ensures
            r == self@.stage,
    {
        self.stage
    }

    /// The answer accumulated so far.
    pub fn answer(&self) -> (r: &String)
        ensures
            r@ == self@.answer,
    {
        &self.answer
    }

    /// Moves the request on by one event and says what to do next. Content
    /// fragments are handed out in decoding order; a record is only handed
    /// out to be written once the end marker has been decoded.
    pub fn handle(&mut self, event: Event) -> (action: Action)
        requires
            old(self).wf(),
            event matches Event::HistoryLoaded(h) ==> 2 * h@.len() < usize::MAX,
        ensures
            final(self).wf(),
            view_wf(final(self)@),
            same_submission(final(self)@, old(self)@),
            transition(old(self)@, event, final(self)@, action),
    {
        match (self.stage, event) {
            (Stage::BuildingContext, Event::HistoryLoaded(history)) => {
                if self.api_key.as_str().is_empty() {
                    self.stage = Stage::Aborted(AbortReason::RequestFailed);
                    return Action::Finish(Err(OrchestratorError::RequestFailed));
                }
                let images = self.copy_images();
                let messages = build_context(&history, self.message.as_str(), images);
                self.stage = Stage::Requesting;
                Action::OpenStream(
                    CompletionRequest {
                        model: self.model.clone(),
                        messages,
                        stream: true,
                        api_key: self.api_key.clone(),
                    },
                )
            },
            (Stage::BuildingContext, Event::HistoryFailed) => {
                self.stage = Stage::Aborted(AbortReason::HistoryFetchFailed);
                Action::Finish(Err(OrchestratorError::HistoryFetchFailed))
            },
            (Stage::Requesting, Event::StreamOpened) => {
                self.stage = Stage::Streaming;
                Action::Read(Vec::new())
            },
            (Stage::Requesting, Event::RequestRejected) => {
                self.stage = Stage::Aborted(AbortReason::RequestFailed);
                Action::Finish(Err(OrchestratorError::RequestFailed))
            },
            (Stage::Streaming, Event::Chunk(bytes)) => self.on_chunk(bytes),
            (Stage::Streaming, Event::StreamEnded) => {
                self.stage = Stage::Aborted(AbortReason::StreamInterrupted);
                Action::Finish(Err(OrchestratorError::StreamInterrupted))
            },
            (Stage::Streaming, Event::StreamFailed) => {
                self.stage = Stage::Aborted(AbortReason::StreamInterrupted);
                Action::Finish(Err(OrchestratorError::StreamInterrupted))
            },
            (Stage::Persisting, Event::Persisted) => {
                self.stage = Stage::Done;
                Action::Finish(Ok(self.response()))
            },
            (Stage::Persisting, Event::PersistFailed) => {
                self.stage = Stage::Aborted(AbortReason::PersistenceFailed);
                Action::Finish(Err(OrchestratorError::PersistenceFailed(self.response())))
            },
            _ => Action::Ignored,
        }
    }

    fn copy_images(&self) -> (r: Option<Vec<String>>)
        ensures
            images_view(r) == images_view(self.base64_images),
    {
        match &self.base64_images {
            None => None,
            Some(v) => {
                let mut out: Vec<String> = Vec::new();
                let mut i: usize = 0;
                while i < v.len()
                    invariant
                        i <= v@.len(),
                        strings_view(out@) =~= strings_view(v@.take(i as int)),
                    decreases v@.len() - i,
                {
                    let ghost prev = out@;
                    out.push(v[i].clone());
                    assert(v@.take(i + 1) =~= v@.take(i as int).push(v@[i as int]));
                    assert(strings_view(out@) =~= strings_view(prev).push(v@[i as int]@));
                    assert(strings_view(v@.take(i + 1)) =~= strings_view(v@.take(i as int)).push(
                        v@[i as int]@,
                    ));
                    i = i + 1;
                }
                assert(v@.take(v@.len() as int) =~= v@);
                Some(out)
            },
        }
    }

    fn on_chunk(&mut self, bytes: Vec<u8>) -> (action: Action)
        requires
            old(self).wf(),
            old(self)@.stage == Stage::Streaming,
        ensures
            final(self).wf(),
            same_submission(final(self)@, old(self)@),
            transition(old(self)@, Event::Chunk(bytes), final(self)@, action),
    {
        let frames = self.decoder.feed(bytes.as_slice());
        let ghost before = self.frames@;
        let ghost fv = frames_view(frames@);
        let mut answer = self.answer.clone();
        let mut fragments: Vec<String> = Vec::new();
        let mut i: usize = 0;
        assert(fv.take(0) =~= seq![]);
        assert(before + fv.take(0) =~= before);
        while i < frames.len()
            invariant
                i <= frames@.len(),
                fv == frames_view(frames@),
                answer@ == accumulated(before + fv.take(i as int)),
                strings_view(fragments@) == deltas(fv.take(i as int)),
            decreases frames@.len() - i,
        {
            proof {
                assert(fv.take(i + 1) =~= fv.take(i as int).push(fv[i as int]));
                assert(before + fv.take(i + 1) =~= (before + fv.take(i as int)).push(fv[i as int]));
                lemma_accumulate_push(before + fv.take(i as int), fv[i as int]);
                lemma_accumulate_push(fv.take(i as int), fv[i as int]);
            }
            match &frames[i] {
                Frame::Delta(s) => {
                    let ghost prev = fragments@;
                    answer.append(s.as_str());
                    fragments.push(s.clone());
                    assert(strings_view(fragments@) =~= strings_view(prev).push(s@));
                },
                _ => {},
            }
            i = i + 1;
        }
        assert(fv.take(frames@.len() as int) =~= fv);
        self.answer = answer;
        self.frames = Ghost(before + fv);
        if self.decoder.is_done() {
            let t = now();
            let record = NewChatHistory {
                session_id: self.session_id.clone(),
                question: self.message.clone(),
                answer: self.answer.clone(),
                created_at: t.micros,
            };
            self.completed_at = Some(t);
            self.stage = Stage::Persisting;
            Action::Persist(fragments, record)
        } else {
            Action::Read(fragments)
        }
    }

    fn response(&self) -> (r: ChatResponse)
        requires
            self@.completed_at is Some,
        ensures
            response_matches(r, self@),
    {
        match &self.completed_at {
            Some(t) => ChatResponse { response: self.answer.clone(), created_at: t.text.clone() },
            None => ChatResponse { response: self.answer.clone(), created_at: String::new() },
        }
    }
}

} // verus!
