//! The state of one greedy decode: position cursor, pending input and the
//! tokens generated so far, advanced one forward pass at a time.
use vstd::prelude::*;

use crate::select::{argmax, is_first_max, lemma_first_max_unique};

verus! {

/// Mathematical model of a decode in progress.
pub struct DecoderView {
    /// Token ids of the encoded prompt.
    pub prompt: Seq<u32>,
    /// Number of tokens the model has already taken into its state.
    pub position: nat,
    /// Tokens to hand to the next forward pass.
    pub pending: Seq<u32>,
    /// Tokens chosen so far, in order.
    pub generated: Seq<u32>,
    /// Budget of forward passes, and so of generated tokens.
    pub max_tokens: nat,
    /// The end-of-sequence marker.
    pub eos: u32,
}

impl DecoderView {
    /// The state before the first forward pass.
    pub open spec fn initial(prompt: Seq<u32>, max_tokens: nat, eos: u32) -> DecoderView {
        DecoderView { prompt, position: 0, pending: prompt, generated: Seq::empty(), max_tokens, eos }
    }

    /// What every reachable state satisfies.
    pub open spec fn inv(self) -> bool {
        &&& self.prompt.len() > 0
        &&& self.prompt.len() + self.max_tokens <= usize::MAX
        &&& self.generated.len() <= self.max_tokens
        &&& self.position == if self.generated.len() == 0 {
            0
        } else {
            (self.prompt.len() + self.generated.len() - 1) as nat
        }
        &&& self.pending == if self.generated.len() == 0 {
            self.prompt
        } else {
            seq![self.generated.last()]
        }
        &&& forall|i: int| 0 <= i < self.generated.len() - 1 ==> self.generated[i] != self.eos
    }

    /// No further forward pass is made: the end marker was produced or the
    /// budget is spent.
    pub open spec fn finished(self) -> bool {
        ||| self.generated.len() >= self.max_tokens
        ||| (self.generated.len() > 0 && self.generated.last() == self.eos)
    }

    /// The state after a forward pass over `pending` chose `token`.
    pub open spec fn after_step(self, token: u32) -> DecoderView {
        DecoderView {
            position: self.position + self.pending.len(),
            pending: seq![token],
            generated: self.generated.push(token),
            ..self
        }
    }
}

/// The input consumed by the forward pass of step `k` (counting from zero):
/// the prompt first, then each generated token in turn.
pub open spec fn input_at(prompt: Seq<u32>, generated: Seq<u32>, k: int) -> Seq<u32> {
    if k == 0 {
        prompt
    } else {
        seq![generated[k - 1]]
    }
}

/// Total length of the inputs consumed by the first `n` forward passes.
pub open spec fn consumed_len(prompt: Seq<u32>, generated: Seq<u32>, n: nat) -> nat
    decreases n,
{
    if n == 0 {
        0
    } else {
        consumed_len(prompt, generated, (n - 1) as nat) + input_at(prompt, generated, n - 1).len()
    }
}

/// The state reached from `v` by choosing `tokens` one after another.
pub open spec fn run(v: DecoderView, tokens: Seq<u32>) -> DecoderView
    decreases tokens.len(),
{
    if tokens.len() == 0 {
        v
    } else {
        run(v, tokens.drop_last()).after_step(tokens.last())
    }
}

/// Each of `tokens` was chosen in a state that had not yet finished, as the
/// decoding loop requires.
pub open spec fn admissible(v: DecoderView, tokens: Seq<u32>) -> bool {
    forall|k: int| 0 <= k < tokens.len() ==> !#[trigger] run(v, tokens.take(k)).finished()
}

/// A step from an unfinished state keeps the invariant.
pub proof fn lemma_step_keeps_inv(v: DecoderView, token: u32)
    requires
        v.inv(),
        !v.finished(),
    ensures
        v.after_step(token).inv(),
{
}

proof fn lemma_consumed_len(prompt: Seq<u32>, generated: Seq<u32>, n: nat)
    requires
        1 <= n <= generated.len() + 1,
    ensures
        consumed_len(prompt, generated, n) == prompt.len() + n - 1,
    decreases n,
{
    if n > 1 {
        lemma_consumed_len(prompt, generated, (n - 1) as nat);
        assert(input_at(prompt, generated, n - 1).len() == 1);
    } else {
        assert(consumed_len(prompt, generated, 0) == 0);
    }
}

/// The position cursor is the total length of the inputs that all forward
/// passes so far consumed, and each step advances it by exactly the length of
/// the input it consumed, so it never decreases and never skips.
pub proof fn lemma_position_counts_consumed(v: DecoderView, token: u32)
    requires
        v.inv(),
    ensures
        v.position == consumed_len(v.prompt, v.generated, v.generated.len()),
        v.after_step(token).position == v.position + input_at(
            v.prompt,
            v.generated,
            v.generated.len() as int,
        ).len(),
        v.after_step(token).position > v.position,
{
    if v.generated.len() > 0 {
        lemma_consumed_len(v.prompt, v.generated, v.generated.len());
    }
}

/// A decode with a budget of `max_tokens` makes at most `max_tokens` forward
/// passes: along any admissible sequence of choices from the initial state the
/// generated tokens are exactly the choices, and there are at most
/// `max_tokens` of them.
pub proof fn lemma_bounded_steps(prompt: Seq<u32>, max_tokens: nat, eos: u32, tokens: Seq<u32>)
    requires
        DecoderView::initial(prompt, max_tokens, eos).inv(),
        admissible(DecoderView::initial(prompt, max_tokens, eos), tokens),
    ensures
        tokens.len() <= max_tokens,
        run(DecoderView::initial(prompt, max_tokens, eos), tokens).generated == tokens,
        run(DecoderView::initial(prompt, max_tokens, eos), tokens).inv(),
        run(DecoderView::initial(prompt, max_tokens, eos), tokens).max_tokens == max_tokens,
        run(DecoderView::initial(prompt, max_tokens, eos), tokens).eos == eos,
    decreases tokens.len(),
{
    let v = DecoderView::initial(prompt, max_tokens, eos);
    if tokens.len() > 0 {
        let front = tokens.drop_last();
        assert forall|k: int| 0 <= k < front.len() implies !#[trigger] run(v, front.take(k)).finished() by {
            assert(front.take(k) =~= tokens.take(k));
            assert(!run(v, tokens.take(k)).finished());
        }
        lemma_bounded_steps(prompt, max_tokens, eos, front);
        let k = front.len() as int;
        assert(tokens.take(k) =~= front);
        assert(!run(v, tokens.take(k)).finished());
        assert(!run(v, front).finished());
        assert(run(v, front).generated.len() < max_tokens);
        lemma_step_keeps_inv(run(v, front), tokens.last());
        assert(run(v, tokens).generated =~= tokens);
    } else {
        assert(run(v, tokens).generated =~= tokens);
    }
}

/// When the first forward pass gives the end marker the highest score (above
/// every lower id), the decode stops after that one pass with the end marker
/// as its only generated token.
pub proof fn lemma_stop_on_end_marker(
    prompt: Seq<u32>,
    max_tokens: nat,
    eos: u32,
    scores: Seq<u32>,
    token: u32,
)
    requires
        DecoderView::initial(prompt, max_tokens, eos).inv(),
        max_tokens >= 1,
        is_first_max(scores, eos as int),
        is_first_max(scores, token as int),
    ensures
        DecoderView::initial(prompt, max_tokens, eos).after_step(token).generated == seq![eos],
        DecoderView::initial(prompt, max_tokens, eos).after_step(token).finished(),
{
    lemma_first_max_unique(scores, eos as int, token as int);
    let w = DecoderView::initial(prompt, max_tokens, eos).after_step(token);
    assert(w.generated =~= seq![eos]);
}

/// Why a decode could not start.
#[derive(Clone, Copy, Debug, PartialEq, Eq)]
pub enum StartError {
    /// The prompt encoded to no tokens, so there is nothing to feed the model.
    EmptyPrompt,
    /// The prompt length plus the budget does not fit a position cursor.
    TooLong,
}

/// A greedy decode in progress, owned by a single request.
pub struct Decoder {
    prompt: Ghost<Seq<u32>>,
    position: usize,
    pending: Vec<u32>,
    generated: Vec<u32>,
    max_tokens: usize,
    eos: u32,
}

impl View for Decoder {
    type V = DecoderView;

    closed spec fn view(&self) -> DecoderView {
        DecoderView {
            prompt: self.prompt@,
            position: self.position as nat,
            pending: self.pending@,
            generated: self.generated@,
            max_tokens: self.max_tokens as nat,
            eos: self.eos,
        }
    }
}

impl Decoder {
    /// Starts a decode of `prompt` that makes at most `max_tokens` forward
    /// passes and stops early once `eos` is chosen.
    pub fn new(prompt: Vec<u32>, max_tokens: usize, eos: u32) -> (r: Result<Decoder, StartError>)
        ensures
            prompt@.len() == 0 ==> r == Err::<Decoder, StartError>(StartError::EmptyPrompt),
            prompt@.len() > 0 && prompt@.len() + max_tokens > usize::MAX ==> r == Err::<
                Decoder,
                StartError,
            >(StartError::TooLong),
            prompt@.len() > 0 && prompt@.len() + max_tokens <= usize::MAX ==> r is Ok,
            r matches Ok(d) ==> d@ == DecoderView::initial(prompt@, max_tokens as nat, eos)
                && d@.inv(),
    {
        if prompt.len() == 0 {
            return Err(StartError::EmptyPrompt);
        }
        if prompt.len() > usize::MAX - max_tokens {
            return Err(StartError::TooLong);
        }
        let d = Decoder {
            prompt: Ghost(prompt@),
            position: 0,
            pending: prompt,
            generated: Vec::new(),
            max_tokens,
            eos,
        };
        proof {
            assert(d@.generated =~= Seq::<u32>::empty());
            assert(d@ == DecoderView::initial(prompt@, max_tokens as nat, eos));
        }
        Ok(d)
    }

    /// Tokens to hand to the next forward pass.
    pub fn pending(&self) -> (r: &[u32])
        ensures
            r@ == self@.pending,
    {
        self.pending.as_slice()
    }

    /// Number of tokens already taken into the model's state: the position of
    /// the first pending token.
    pub fn position(&self) -> (r: usize)
        ensures
            r == self@.position,
    {
        self.position
    }

    /// Tokens chosen so far, the end marker included where it was chosen.
    pub fn generated(&self) -> (r: &[u32])
        ensures
            r@ == self@.generated,
    {
        self.generated.as_slice()
    }

    /// The end-of-sequence marker this decode stops on.
    pub fn eos(&self) -> (r: u32)
        ensures
            r == self@.eos,
    {
        self.eos
    }

    /// The budget of forward passes.
    pub fn max_tokens(&self) -> (r: usize)
        ensures
            r == self@.max_tokens,
    {
        self.max_tokens
    }

    /// Whether the decode has stopped.
    pub fn is_done(&self) -> (r: bool)
        requires
            self@.inv(),
        ensures
            r == self@.finished(),
    {
        self.generated.len() >= self.max_tokens || (self.generated.len() > 0
            && self.generated[self.generated.len() - 1] == self.eos)
    }

    /// Takes the scores of the forward pass over `pending` at `position`,
    /// chooses the highest-scoring token (the lowest id among equal scores),
    /// records it and makes it the next pending input.
    pub fn step(&mut self, scores: &[u32]) -> (token: u32)
        requires
            old(self)@.inv(),
            !old(self)@.finished(),
            0 < scores@.len() <= u32::MAX as int + 1,
        ensures
            is_first_max(scores@, token as int),
            final(self)@ == old(self)@.after_step(token),
            final(self)@.inv(),
    {
        let token = argmax(scores) as u32;
        let consumed = self.pending.len();
        self.generated.push(token);
        self.position = self.position + consumed;
        self.pending = vec![token];
        proof {
            assert(self@.pending =~= seq![token]);
        }
        token
    }

    /// Ends the decode and hands over every generated token, the end marker
    /// included where it was chosen.
    pub fn into_generated(self) -> (r: Vec<u32>)
        ensures
            r@ == self@.generated,
    {
        self.generated
    }
}

} // verus!
