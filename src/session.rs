//! One generation request as a state machine: the caller performs each action
//! (load, encode, forward pass, decode) against the model backend and hands the
//! outcome back as an event; the session decides what happens next.
use vstd::prelude::*;

use crate::decoding::{Decoder, DecoderView, StartError};
use crate::select::{
    has_nan, is_first_max, is_nan_bits, keys_of, last_position, last_position_span, score_keys, shape_size,
    supported_shape,
};

verus! {

/// Budget of forward passes for one request.
pub const DEFAULT_MAX_TOKENS: usize = 100;

/// The kinds of failure a request can end in.
#[derive(Clone, Copy, Debug, PartialEq, Eq)]
pub enum ErrorKind {
    /// The model or vocabulary artifact is missing, unreadable or malformed.
    Load,
    /// The prompt could not be turned into tokens.
    Tokenize,
    /// The generated tokens could not be turned into text.
    Detokenize,
    /// A forward pass failed or gave output of an unusable shape.
    Forward,
    /// The request cannot be served as configured, or an event came that the
    /// request was not waiting for.
    Configuration,
}

/// A failure with its kind and a message for people.
#[derive(Debug, PartialEq, Eq)]
pub struct GenerateError {
    pub kind: ErrorKind,
    pub message: String,
}

/// The outcome of an action, reported back to the session.
#[derive(Debug)]
pub enum Event {
    /// Model and vocabulary are loaded; `eos` is the vocabulary's end marker.
    Loaded { eos: u32 },
    /// The prompt encoded to these tokens.
    Encoded(Vec<u32>),
    /// A forward pass produced a buffer of shape `dims`, each score given by
    /// its IEEE-754 single-precision bit pattern.
    Scored { dims: Vec<usize>, bits: Vec<u32> },
    /// The generated tokens decoded to this text.
    Decoded(String),
    /// The action failed, with the backend's message.
    Failed(String),
}

/// What the caller is to do next.
#[derive(Debug)]
pub enum Action {
    /// Encode the prompt.
    Encode,
    /// Run one forward pass over `tokens`, the first of which stands at `position`.
    Forward { tokens: Vec<u32>, position: usize },
    /// Decode these tokens to text: every token generated, the end marker
    /// included where the decode stopped on it. The end marker and other
    /// special tokens do not appear in the text.
    Decode(Vec<u32>),
    /// The request succeeded with this text.
    Reply(String),
    /// The request failed.
    Fail(GenerateError),
}

/// Where a request stands.
pub enum Stage {
    Loading,
    Encoding { eos: u32 },
    Stepping(Decoder),
    Decoding,
    Finished,
}

/// Mathematical model of `Stage`.
pub enum StageView {
    Loading,
    Encoding { eos: u32 },
    Stepping(DecoderView),
    Decoding,
    Finished,
}

/// Mathematical model of a session.
pub struct SessionView {
    pub stage: StageView,
    pub max_tokens: nat,
    /// Forward passes asked for so far.
    pub forward_calls: nat,
}

impl SessionView {
    /// What every reachable session satisfies: no forward pass before the
    /// prompt is encoded, and never more forward passes than the budget.
    pub open spec fn inv(self) -> bool {
        &&& self.forward_calls <= self.max_tokens
        &&& match self.stage {
            StageView::Loading => self.forward_calls == 0,
            StageView::Encoding { .. } => self.forward_calls == 0,
            StageView::Stepping(d) => {
                &&& d.inv()
                &&& !d.finished()
                &&& d.max_tokens == self.max_tokens
                &&& self.forward_calls == d.generated.len() + 1
            },
            _ => true,
        }
    }
}

/// The request ended in a failure of `kind`.
pub open spec fn fails_with(next: SessionView, action: Action, kind: ErrorKind) -> bool {
    &&& next.stage is Finished
    &&& action matches Action::Fail(e) && e.kind == kind
}

/// The request ended in a failure of `kind` carrying the backend's `message`.
pub open spec fn fails_with_message(
    next: SessionView,
    action: Action,
    kind: ErrorKind,
    message: String,
) -> bool {
    &&& next.stage is Finished
    &&& action matches Action::Fail(e) && e.kind == kind && e.message@ == message@
}

/// A forward pass's output that the next token can be chosen from: of a
/// supported shape, holding as many scores as the shape says, with ids that
/// fit `u32`, and with no NaN among the scores of the final position.
pub open spec fn usable_scores(dims: Seq<usize>, bits: Seq<u32>) -> bool {
    let span = last_position_span(dims);
    &&& supported_shape(dims)
    &&& shape_size(dims) == bits.len()
    &&& span.len <= u32::MAX as int + 1
    &&& forall|i: int| span.start <= i < span.start + span.len ==> !is_nan_bits(#[trigger] bits[i])
}

/// What follows a forward pass whose next-token scores are `scores`: the
/// greedy choice is made, then either the next forward pass is asked for or,
/// once the decode has finished, every generated token is decoded.
pub open spec fn continues_after(
    d: DecoderView,
    scores: Seq<u32>,
    next: SessionView,
    action: Action,
) -> bool {
    exists|t: u32|
        #![trigger d.after_step(t)]
        {
            &&& is_first_max(scores, t as int)
            &&& if d.after_step(t).finished() {
                &&& next.stage == StageView::Decoding
                &&& action matches Action::Decode(ts) && ts@ == d.after_step(t).generated
            } else {
                &&& next.stage == StageView::Stepping(d.after_step(t))
                &&& action matches Action::Forward { tokens, position } && tokens@ == d.after_step(
                    t,
                ).pending && position == d.after_step(t).position
            }
        }
}

/// A single generation request.
pub struct Session {
    stage: Stage,
    max_tokens: usize,
    forward_calls: Ghost<nat>,
}

impl View for Stage {
    type V = StageView;

    closed spec fn view(&self) -> StageView {
        match self {
            Stage::Loading => StageView::Loading,
            Stage::Encoding { eos } => StageView::Encoding { eos: *eos },
            Stage::Stepping(d) => StageView::Stepping(d@),
            Stage::Decoding => StageView::Decoding,
            Stage::Finished => StageView::Finished,
        }
    }
}

impl View for Session {
    type V = SessionView;

    closed spec fn view(&self) -> SessionView {
        SessionView {
            stage: self.stage@,
            max_tokens: self.max_tokens as nat,
            forward_calls: self.forward_calls@,
        }
    }
}

impl Session {
    /// A request that waits for its model and vocabulary to load and then
    /// makes at most `max_tokens` forward passes.
    pub fn new(max_tokens: usize) -> (r: Session)
        ensures
            r@ == (SessionView { stage: StageView::Loading, max_tokens: max_tokens as nat, forward_calls: 0 }),
            r@.inv(),
    {
        Session { stage: Stage::Loading, max_tokens, forward_calls: Ghost(0) }
    }

    /// Whether the request has ended, in a reply or a failure.
    pub fn is_finished(&self) -> (r: bool)
        ensures
            r == self@.stage is Finished,
    {
        match self.stage {
            Stage::Finished => true,
            _ => false,
        }
    }

    fn fail(self, kind: ErrorKind, message: String) -> (r: (Session, Action))
        ensures
            r.0@ == (SessionView { stage: StageView::Finished, ..self@ }),
            r.1 == Action::Fail(GenerateError { kind, message }),
    {
        let next = Session { stage: Stage::Finished, ..self };
        (next, Action::Fail(GenerateError { kind, message }))
    }

    /// Takes the outcome of the last action and says what to do next.
    ///
    /// A failure reported by the backend ends the request with the kind of
    /// the stage it came in (load, tokenize, forward, detokenize) and the
    /// backend's message; nothing generated so far is returned. An event the
    /// request was not waiting for ends it with a configuration failure.
    pub fn on_event(self, event: Event) -> (r: (Session, Action))
        requires
            self@.inv(),
        ensures
            r.0@.inv(),
            r.0@.max_tokens == self@.max_tokens,
            r.0@.forward_calls == self@.forward_calls + if r.1 is Forward {
                1nat
            } else {
                0nat
            },
            r.1 matches Action::Decode(ts) ==> ts@.len() == r.0@.forward_calls,
            self@.stage is Loading ==> r.0@.forward_calls == 0,
            self@.stage is Encoding && r.1 is Fail ==> r.0@.forward_calls == 0,
            self@.stage is Finished ==> fails_with(r.0@, r.1, ErrorKind::Configuration),
            self@.stage is Loading ==> match event {
                Event::Loaded { eos } => r.0@.stage == (StageView::Encoding { eos }) && r.1 is Encode,
                Event::Failed(m) => fails_with_message(r.0@, r.1, ErrorKind::Load, m),
                _ => fails_with(r.0@, r.1, ErrorKind::Configuration),
            },
            self@.stage matches StageView::Encoding { eos } ==> match event {
                Event::Encoded(toks) => if toks@.len() == 0 {
                    fails_with(r.0@, r.1, ErrorKind::Tokenize)
                } else if toks@.len() + self@.max_tokens > usize::MAX {
                    fails_with(r.0@, r.1, ErrorKind::Configuration)
                } else if self@.max_tokens == 0 {
                    &&& r.0@.stage is Decoding
                    &&& r.1 matches Action::Decode(ts) && ts@.len() == 0
                } else {
                    &&& r.0@.stage == StageView::Stepping(
                        DecoderView::initial(toks@, self@.max_tokens, eos),
                    )
                    &&& r.1 matches Action::Forward { tokens, position } && tokens@ == toks@
                        && position == 0
                },
                Event::Failed(m) => fails_with_message(r.0@, r.1, ErrorKind::Tokenize, m),
                _ => fails_with(r.0@, r.1, ErrorKind::Configuration),
            },
            self@.stage matches StageView::Stepping(d) ==> match event {
                Event::Scored { dims, bits } => if usable_scores(dims@, bits@) {
                    continues_after(
                        d,
                        keys_of(
                            bits@.subrange(
                                last_position_span(dims@).start as int,
                                last_position_span(dims@).start + last_position_span(dims@).len,
                            ),
                        ),
                        r.0@,
                        r.1,
                    )
                } else {
                    fails_with(r.0@, r.1, ErrorKind::Forward)
                },
                Event::Failed(m) => fails_with_message(r.0@, r.1, ErrorKind::Forward, m),
                _ => fails_with(r.0@, r.1, ErrorKind::Configuration),
            },
            self@.stage is Decoding ==> match event {
                Event::Decoded(text) => {
                    &&& r.0@.stage is Finished
                    &&& r.1 matches Action::Reply(t) && t@ == text@
                },
                Event::Failed(m) => fails_with_message(r.0@, r.1, ErrorKind::Detokenize, m),
                _ => fails_with(r.0@, r.1, ErrorKind::Configuration),
            },
    {
        let max_tokens = self.max_tokens;
        let calls = self.forward_calls;
        match self.stage {
            Stage::Loading => match event {
                Event::Loaded { eos } => {
                    (Session { stage: Stage::Encoding { eos }, max_tokens, forward_calls: calls }, Action::Encode)
                },
                Event::Failed(m) => self.fail(ErrorKind::Load, m),
                _ => self.fail(ErrorKind::Configuration, "unexpected event while loading".to_owned()),
            },
            Stage::Encoding { eos } => match event {
                Event::Encoded(toks) => {
                    if max_tokens == 0 && toks.len() > 0 {
                        let next = Session { stage: Stage::Decoding, max_tokens, forward_calls: calls };
                        return (next, Action::Decode(Vec::new()));
                    }
                    let tokens = toks.clone();
                    proof {
                        assert(tokens@ =~= toks@);
                    }
                    match Decoder::new(toks, max_tokens, eos) {
                        Err(StartError::EmptyPrompt) => self.fail(
                            ErrorKind::Tokenize,
                            "the prompt encoded to no tokens".to_owned(),
                        ),
                        Err(StartError::TooLong) => self.fail(
                            ErrorKind::Configuration,
                            "the prompt is too long for the token budget".to_owned(),
                        ),
                        Ok(d) => {
                            let next = Session {
                                stage: Stage::Stepping(d),
                                max_tokens,
                                forward_calls: Ghost((calls@ + 1) as nat),
                            };
                            (next, Action::Forward { tokens, position: 0 })
                        },
                    }
                },
                Event::Failed(m) => self.fail(ErrorKind::Tokenize, m),
                _ => self.fail(ErrorKind::Configuration, "unexpected event while encoding".to_owned()),
            },
            Stage::Stepping(d) => {
                let mut d = d;
                match event {
                    Event::Scored { dims, bits } => {
                        match last_position(dims.as_slice(), bits.len()) {
                            Err(_) => {
                                let next = Session { stage: Stage::Finished, max_tokens, forward_calls: calls };
                                (next, Action::Fail(GenerateError {
                                    kind: ErrorKind::Forward,
                                    message: "the forward pass gave output of an unusable shape".to_owned(),
                                }))
                            },
                            Ok(span) => {
                                if (span.len - 1) as u64 > 0xFFFF_FFFFu64 {
                                    let next = Session { stage: Stage::Finished, max_tokens, forward_calls: calls };
                                    return (next, Action::Fail(GenerateError {
                                        kind: ErrorKind::Forward,
                                        message: "the vocabulary is too large for token ids".to_owned(),
                                    }));
                                }
                                if has_nan(bits.as_slice(), span) {
                                    let next = Session { stage: Stage::Finished, max_tokens, forward_calls: calls };
                                    return (next, Action::Fail(GenerateError {
                                        kind: ErrorKind::Forward,
                                        message: "the forward pass gave a NaN score".to_owned(),
                                    }));
                                }
                                let keys = score_keys(bits.as_slice(), span);
                                let ghost before = d@;
                                let token = d.step(keys.as_slice());
                                proof {
                                    assert(before.after_step(token) == d@);
                                    assert(is_first_max(keys@, token as int));
                                }
                                if d.is_done() {
                                    let out = d.into_generated();
                                    let next = Session { stage: Stage::Decoding, max_tokens, forward_calls: calls };
                                    (next, Action::Decode(out))
                                } else {
                                    let position = d.position();
                                    let tokens = vec![token];
                                    proof {
                                        assert(tokens@ =~= d@.pending);
                                    }
                                    let next = Session {
                                        stage: Stage::Stepping(d),
                                        max_tokens,
                                        forward_calls: Ghost((calls@ + 1) as nat),
                                    };
                                    (next, Action::Forward { tokens, position })
                                }
                            },
                        }
                    },
                    Event::Failed(m) => {
                        let next = Session { stage: Stage::Finished, max_tokens, forward_calls: calls };
                        (next, Action::Fail(GenerateError { kind: ErrorKind::Forward, message: m }))
                    },
                    _ => {
                        let next = Session { stage: Stage::Finished, max_tokens, forward_calls: calls };
                        (next, Action::Fail(GenerateError {
                            kind: ErrorKind::Configuration,
                            message: "unexpected event during a forward pass".to_owned(),
                        }))
                    },
                }
            },
            Stage::Decoding => match event {
                Event::Decoded(text) => {
                    (Session { stage: Stage::Finished, max_tokens, forward_calls: calls }, Action::Reply(text))
                },
                Event::Failed(m) => self.fail(ErrorKind::Detokenize, m),
                _ => self.fail(ErrorKind::Configuration, "unexpected event while decoding".to_owned()),
            },
            Stage::Finished => self.fail(
                ErrorKind::Configuration,
                "the request has already ended".to_owned(),
            ),
        }
    }
}

} // verus!
