//! The generation engine as a state machine.
//!
//! The engine owns the token buffer and the step index. Its driver owns the
//! model, the recurrent cache, the sampler and the tokenizer: it asks the
//! engine what to do next, does it, and hands the outcome back.
use crate::logits::{
    drawn_from, is_replay, next_token, penalized_step, take_next, window_of,
    LogitsProcessorWrapper, SamplingError,
};
use crate::hf::tokenizer::END_OF_SEQUENCE;
use crate::bindings::{decimal, decimal_text};
use crate::tokenizer::{
    added_token_count, added_tokens, encode_ids, end_of_sequence_id, truncation, truncation_fails,
    truncation_settings, vocabulary_id,
};
use candle_core::Tensor;
use tokenizers::Tokenizer;
use vstd::prelude::*;
use vstd::string::StringExecFns;

verus! {

/// How the model is run.
#[derive(Clone, Copy, Debug, PartialEq, Eq, Structural)]
pub enum GenerationMode {
    /// One token at a time, with the recurrent state carried from step to
    /// step.
    Cached,
    /// Over the whole token buffer, again for each new token.
    Cacheless,
}

/// Why a generation could not start or go on.
#[derive(Debug)]
pub enum GenerationError {
    /// The truncation that the tokenizer is set to cannot be carried out: the
    /// tokens that it adds do not fit in the greatest length, or the stride
    /// is not below what they leave of it.
    Truncation { max_length: usize, stride: usize, added_tokens: usize },
    /// The tokenizer could not encode the prompt.
    Encoding { message: String },
    /// The vocabulary does not hold this token, the end-of-sequence token.
    TokenNotFound { token: String },
    /// No token could be drawn from the logits of a step.
    Sampling { cause: SamplingError },
}

impl GenerationError {
    /// The failure in words: what the tokenizer said, or which token the
    /// vocabulary lacks, or why no token was drawn.
    pub open spec fn spec_message(&self) -> Seq<char> {
        match self {
            GenerationError::Truncation { max_length, stride, added_tokens } => {
                "the tokenizer cannot truncate to "@ + decimal(*max_length as nat)
                    + " tokens with a stride of "@ + decimal(*stride as nat) + " beside the "@
                    + decimal(*added_tokens as nat) + " tokens that it adds"@
            },
            GenerationError::Encoding { message } => "cannot encode the prompt: "@ + message@,
            GenerationError::TokenNotFound { token } => "cannot find the "@ + token@ + " token"@,
            GenerationError::Sampling { cause: SamplingError::Shape { dims } } => {
                "cannot draw a token: the logits are no vector with an element"@
            },
            GenerationError::Sampling { cause: SamplingError::Penalty { cause } } => {
                "cannot draw a token: the penalty could not be applied"@
            },
            GenerationError::Sampling { cause: SamplingError::Draw { cause } } => {
                "cannot draw a token"@
            },
        }
    }

    /// The failure in words.
    pub fn message(&self) -> (r: String)
        ensures
            r@ == self.spec_message(),
    {
        match self {
            GenerationError::Truncation { max_length, stride, added_tokens } => {
                let mut r = String::from_str("the tokenizer cannot truncate to ");
                let max_length = decimal_text(*max_length);
                r.append(max_length.as_str());
                r.append(" tokens with a stride of ");
                let stride = decimal_text(*stride);
                r.append(stride.as_str());
                r.append(" beside the ");
                let added_tokens = decimal_text(*added_tokens);
                r.append(added_tokens.as_str());
                r.append(" tokens that it adds");
                r
            },
            GenerationError::Encoding { message } => {
                let mut r = String::from_str("cannot encode the prompt: ");
                r.append(message.as_str());
                r
            },
            GenerationError::TokenNotFound { token } => {
                let mut r = String::from_str("cannot find the ");
                r.append(token.as_str());
                r.append(" token");
                r
            },
            GenerationError::Sampling { cause: SamplingError::Shape { dims } } => {
                String::from_str("cannot draw a token: the logits are no vector with an element")
            },
            GenerationError::Sampling { cause: SamplingError::Penalty { cause } } => {
                String::from_str("cannot draw a token: the penalty could not be applied")
            },
            GenerationError::Sampling { cause: SamplingError::Draw { cause } } => {
                String::from_str("cannot draw a token")
            },
        }
    }
}

/// What the engine asks of its driver.
#[derive(Clone, Copy, Debug, PartialEq, Eq, Structural)]
pub enum Request {
    /// Feed this token and the current cache to the model's single step,
    /// keep the cache it returns in place of the current one, and hand the
    /// logits to the logits processor.
    Step(usize),
    /// Run the model over the whole token buffer and tell the engine so.
    Forward,
    /// Hand the logits that the last run over the buffer gave for this
    /// position to the logits processor.
    Position(usize),
    /// Flush what the incremental decoder still holds, and stop.
    Finish,
}

/// What a step gave.
#[derive(Clone, Copy, Debug, PartialEq, Eq, Structural)]
pub enum Emission {
    /// A token to decode and emit.
    Token(usize),
    /// The end-of-sequence token: nothing is emitted and the generation is
    /// over.
    EndOfSequence,
}

/// The state of one generation.
#[derive(Debug)]
pub struct GenerationSession {
    /// The prompt, followed by the tokens generated so far.
    pub tokens: Vec<usize>,
    /// The token that ends the generation.
    pub eos_token: usize,
    /// Number of steps after which the generation ends.
    pub sample_len: usize,
    pub mode: GenerationMode,
    /// Index of the current step.
    pub step: usize,
    /// In cacheless mode the last run over the buffer gave logits for the
    /// positions below this.
    pub batch_end: usize,
    /// Whether the end-of-sequence token has come.
    pub finished: bool,
}

/// The mathematical state of a generation.
pub struct SessionState {
    pub tokens: Seq<usize>,
    pub eos_token: usize,
    pub sample_len: nat,
    pub mode: GenerationMode,
    pub step: nat,
    pub batch_end: nat,
    pub finished: bool,
}

impl View for GenerationSession {
    type V = SessionState;

    open spec fn view(&self) -> SessionState {
        SessionState {
            tokens: self.tokens@,
            eos_token: self.eos_token,
            sample_len: self.sample_len as nat,
            mode: self.mode,
            step: self.step as nat,
            batch_end: self.batch_end as nat,
            finished: self.finished,
        }
    }
}

impl SessionState {
    /// The state in which a generation starts.
    pub open spec fn initial(
        tokens: Seq<usize>,
        eos_token: usize,
        sample_len: nat,
        mode: GenerationMode,
    ) -> SessionState {
        SessionState { tokens, eos_token, sample_len, mode, step: 0, batch_end: 0, finished: false }
    }

    /// The step index stays below the length of the buffer and within the
    /// number of steps, and the model was never run over more than the
    /// buffer.
    pub open spec fn well_formed(self) -> bool {
        &&& self.step <= self.sample_len
        &&& self.step < self.tokens.len() || (self.step == 0 && self.sample_len == 0)
        &&& self.batch_end <= self.tokens.len()
        &&& self.mode == GenerationMode::Cached ==> self.batch_end == 0
    }

    /// Whether a step is still to come.
    pub open spec fn active(self) -> bool {
        !self.finished && self.step < self.sample_len
    }

    /// Whether the model has to be run over the buffer before the current
    /// step has logits.
    pub open spec fn needs_forward(self) -> bool {
        self.active() && self.mode == GenerationMode::Cacheless && self.step >= self.batch_end
    }

    /// Whether the current step has logits to process.
    pub open spec fn has_logits(self) -> bool {
        self.active() && !self.needs_forward()
    }

    /// What the engine asks of its driver in this state.
    pub open spec fn request(self) -> Request {
        if !self.active() {
            Request::Finish
        } else if self.mode == GenerationMode::Cached {
            Request::Step(self.tokens[self.step as int])
        } else if self.step >= self.batch_end {
            Request::Forward
        } else {
            Request::Position(self.step as usize)
        }
    }

    /// The state after the model was run over the whole buffer.
    pub open spec fn forwarded(self) -> SessionState {
        SessionState { batch_end: self.tokens.len(), ..self }
    }

    /// Whether the current step needs a drawn token.
    pub open spec fn needs_draw(self) -> bool {
        !is_replay(self.tokens, self.step as int)
    }

    /// The state after the current step, whose next token is `token`: the
    /// token is appended to the buffer unless the buffer holds it at the next
    /// position already. The end-of-sequence token ends the generation and
    /// leaves the step index; any other token advances it.
    pub open spec fn stepped(self, token: usize) -> SessionState {
        let tokens = if is_replay(self.tokens, self.step as int) {
            self.tokens
        } else {
            self.tokens.push(token)
        };
        if token == self.eos_token {
            SessionState { tokens, finished: true, ..self }
        } else {
            SessionState { tokens, step: self.step + 1, ..self }
        }
    }

    /// What a step with the next token `token` gives.
    pub open spec fn emission_of(self, token: usize) -> Emission {
        if token == self.eos_token {
            Emission::EndOfSequence
        } else {
            Emission::Token(token)
        }
    }

    /// The state after the current step, whose next token is the one in the
    /// buffer or else the drawn one. Without a next token the state stays as
    /// it is.
    pub open spec fn accepted(self, drawn: Option<u32>) -> SessionState {
        match next_token(self.tokens, self.step as int, drawn) {
            None => self,
            Some(token) => self.stepped(token),
        }
    }

    /// What the current step gives.
    pub open spec fn emission(self, drawn: Option<u32>) -> Option<Emission> {
        match next_token(self.tokens, self.step as int, drawn) {
            None => None,
            Some(token) => Some(self.emission_of(token)),
        }
    }

    /// The tokens emitted so far: the first token of the prompt, which is
    /// emitted when the generation starts, and the next token of each step
    /// that has been concluded.
    pub open spec fn emitted(self) -> Seq<usize> {
        if self.tokens.len() == 0 {
            Seq::empty()
        } else {
            self.tokens.subrange(0, self.step as int + 1)
        }
    }

    /// Number of requests that the engine still makes at most, twice the
    /// steps left and one more where the model has to be run first.
    pub open spec fn requests_left(self) -> nat {
        if !self.active() {
            0
        } else if self.needs_forward() {
            (2 * (self.sample_len - self.step) + 1) as nat
        } else {
            (2 * (self.sample_len - self.step)) as nat
        }
    }

    /// The state in which the generation ends, where `draw` gives the token
    /// that the sampler draws when the buffer holds the given tokens.
    ///
    /// The logits of a position depend on the tokens up to that position, and
    /// the state of the sampler on the tokens drawn before: so, for one
    /// prompt, what is drawn depends on the buffer alone.
    pub open spec fn run(self, draw: spec_fn(Seq<usize>) -> u32) -> SessionState
        decreases self.requests_left(),
        when self.well_formed()
    {
        if !self.active() {
            self
        } else if self.needs_forward() {
            self.forwarded().run(draw)
        } else if self.needs_draw() {
            self.accepted(Some(draw(self.tokens))).run(draw)
        } else {
            self.accepted(None).run(draw)
        }
    }
}

/// Running the model over the buffer keeps the state well formed and gives
/// the current step its logits.
pub proof fn lemma_forwarded(s: SessionState)
    requires
        s.well_formed(),
        s.needs_forward(),
    ensures
        s.forwarded().well_formed(),
        s.forwarded().has_logits(),
        s.forwarded().requests_left() < s.requests_left(),
{
}

/// A concluded step keeps the state well formed, and takes the engine nearer
/// to its end.
pub proof fn lemma_accepted(s: SessionState, drawn: Option<u32>)
    requires
        s.well_formed(),
        s.has_logits(),
        s.needs_draw() ==> drawn is Some,
    ensures
        s.accepted(drawn).well_formed(),
        s.accepted(drawn).requests_left() < s.requests_left(),
        s.accepted(drawn).finished ==> s.accepted(drawn).emitted() == s.emitted(),
        !s.accepted(drawn).finished ==> (s.emission(drawn) matches Some(Emission::Token(token))
            && s.accepted(drawn).emitted() == s.emitted().push(token)),
{
    let t = s.accepted(drawn);
    if !t.finished {
        assert(t.emitted() =~= s.emitted().push(t.tokens[t.step as int]));
    } else {
        assert(t.emitted() =~= s.emitted());
    }
}

/// Two states are at the same point of a generation: they hold the same
/// buffer, step index and end, whatever the mode.
pub open spec fn same_progress(a: SessionState, b: SessionState) -> bool {
    &&& a.tokens == b.tokens
    &&& a.eos_token == b.eos_token
    &&& a.sample_len == b.sample_len
    &&& a.step == b.step
    &&& a.finished == b.finished
}

/// From the same point, a cached and a cacheless generation end at the same
/// point.
pub proof fn lemma_runs_agree(
    cached: SessionState,
    cacheless: SessionState,
    draw: spec_fn(Seq<usize>) -> u32,
)
    requires
        cached.well_formed(),
        cacheless.well_formed(),
        cached.mode == GenerationMode::Cached,
        cacheless.mode == GenerationMode::Cacheless,
        same_progress(cached, cacheless),
    ensures
        same_progress(cached.run(draw), cacheless.run(draw)),
    decreases cacheless.requests_left(),
{
    if !cacheless.active() {
    } else if cacheless.needs_forward() {
        lemma_forwarded(cacheless);
        lemma_runs_agree(cached, cacheless.forwarded(), draw);
    } else {
        let drawn = if cacheless.needs_draw() {
            Some(draw(cacheless.tokens))
        } else {
            None
        };
        lemma_accepted(cached, drawn);
        lemma_accepted(cacheless, drawn);
        lemma_runs_agree(cached.accepted(drawn), cacheless.accepted(drawn), draw);
    }
}

/// For one prompt, one end-of-sequence token, one number of steps and one
/// sampler, the cached and the cacheless generation end with the same token
/// buffer after the same number of steps, and have emitted the same tokens.
/// This holds for every penalty: the window of a step depends on the buffer
/// and the step alone.
pub proof fn lemma_mode_equivalence(
    tokens: Seq<usize>,
    eos_token: usize,
    sample_len: nat,
    draw: spec_fn(Seq<usize>) -> u32,
)
    requires
        tokens.len() > 0 || sample_len == 0,
    ensures
        ({
            let cached = SessionState::initial(
                tokens,
                eos_token,
                sample_len,
                GenerationMode::Cached,
            ).run(draw);
            let cacheless = SessionState::initial(
                tokens,
                eos_token,
                sample_len,
                GenerationMode::Cacheless,
            ).run(draw);
            &&& cached.tokens == cacheless.tokens
            &&& cached.step == cacheless.step
            &&& cached.finished == cacheless.finished
            &&& cached.emitted() == cacheless.emitted()
        }),
{
    lemma_runs_agree(
        SessionState::initial(tokens, eos_token, sample_len, GenerationMode::Cached),
        SessionState::initial(tokens, eos_token, sample_len, GenerationMode::Cacheless),
        draw,
    );
}

/// A generation ends: with the end-of-sequence token, which comes before
/// `sample_len` steps are counted, or after `sample_len` steps. It has then
/// emitted the first token of the prompt and one token for each step.
pub proof fn lemma_run_ends(s: SessionState, draw: spec_fn(Seq<usize>) -> u32)
    requires
        s.well_formed(),
    ensures
        s.run(draw).well_formed(),
        s.run(draw).request() == Request::Finish,
        s.run(draw).finished || s.run(draw).step == s.sample_len,
        !s.finished && s.run(draw).finished ==> s.run(draw).step < s.sample_len,
        s.tokens.len() > 0 ==> s.run(draw).emitted().len() == s.run(draw).step + 1,
        s.run(draw).sample_len == s.sample_len,
    decreases s.requests_left(),
{
    if !s.active() {
    } else if s.needs_forward() {
        lemma_forwarded(s);
        lemma_run_ends(s.forwarded(), draw);
    } else {
        let drawn = if s.needs_draw() {
            Some(draw(s.tokens))
        } else {
            None
        };
        lemma_accepted(s, drawn);
        lemma_run_ends(s.accepted(drawn), draw);
    }
}

/// A generation that ends inside the tokens it was given replays them: it
/// draws no token and leaves the buffer as it is.
pub proof fn lemma_replay_keeps_the_buffer(s: SessionState, draw: spec_fn(Seq<usize>) -> u32)
    requires
        s.well_formed(),
        s.sample_len < s.tokens.len(),
    ensures
        s.run(draw).tokens == s.tokens,
    decreases s.requests_left(),
{
    if !s.active() {
    } else if s.needs_forward() {
        lemma_forwarded(s);
        lemma_replay_keeps_the_buffer(s.forwarded(), draw);
    } else {
        assert(!s.needs_draw());
        lemma_accepted(s, None);
        lemma_replay_keeps_the_buffer(s.accepted(None), draw);
    }
}

/// A generation that ends inside the tokens it was given, and finds the
/// end-of-sequence token at none of the positions that it replays, counts
/// every one of its steps.
pub proof fn lemma_replay_reaches_the_end(s: SessionState, draw: spec_fn(Seq<usize>) -> u32)
    requires
        s.well_formed(),
        !s.finished,
        s.sample_len < s.tokens.len(),
        forall|k: int| s.step < k <= s.sample_len ==> s.tokens[k] != s.eos_token,
    ensures
        !s.run(draw).finished,
        s.run(draw).step == s.sample_len,
        s.run(draw).tokens == s.tokens,
    decreases s.requests_left(),
{
    if !s.active() {
    } else if s.needs_forward() {
        lemma_forwarded(s);
        lemma_replay_reaches_the_end(s.forwarded(), draw);
    } else {
        assert(!s.needs_draw());
        lemma_accepted(s, None);
        lemma_replay_reaches_the_end(s.accepted(None), draw);
    }
}

/// A prompt whose second token is the end-of-sequence token ends the
/// generation at its first step: no step is counted, nothing but the first
/// token of the prompt is emitted, no token is drawn, and the engine asks for
/// the final flush.
pub proof fn lemma_forced_end_at_first_step(
    tokens: Seq<usize>,
    eos_token: usize,
    sample_len: nat,
    mode: GenerationMode,
    draw: spec_fn(Seq<usize>) -> u32,
)
    requires
        tokens.len() >= 2,
        tokens[1] == eos_token,
        sample_len > 0,
    ensures
        ({
            let end = SessionState::initial(tokens, eos_token, sample_len, mode).run(draw);
            &&& end.finished
            &&& end.step == 0
            &&& end.tokens == tokens
            &&& end.emitted() == seq![tokens[0]]
            &&& end.request() == Request::Finish
        }),
{
    let start = SessionState::initial(tokens, eos_token, sample_len, mode);
    let ready = if start.needs_forward() {
        start.forwarded()
    } else {
        start
    };
    assert(start.run(draw) == ready.run(draw));
    assert(!ready.needs_draw());
    let end = ready.accepted(None);
    assert(ready.run(draw) == end.run(draw));
    assert(end.run(draw) == end);
    assert(end.emitted() =~= seq![tokens[0]]);
}

/// A step that needs a drawn token went as it must, with `outcome` as what
/// the logits processor gave: the token was drawn from the logits as they
/// are where the penalty is the identity, else from what the penalty gave
/// for the logits, the factor and the window of the step. A drawn token is
/// taken into the state; a failure is handed on as `Sampling` and leaves the
/// state as it is.
pub open spec fn step_drawn<F: Fn(&Tensor, u32, Vec<u32>) -> Result<Tensor, candle_core::Error>>(
    outcome: Result<usize, SamplingError>,
    r: Result<Emission, GenerationError>,
    before: SessionState,
    after: SessionState,
    logits: &Tensor,
    repeat_penalty: u32,
    repeat_last_n: usize,
    attenuate: F,
) -> bool {
    &&& if repeat_penalty == crate::logits::NO_PENALTY {
        drawn_from(outcome, before.tokens, after.tokens, logits)
    } else {
        penalized_step(
            outcome,
            before.tokens,
            after.tokens,
            logits,
            repeat_penalty,
            window_of(before.tokens, before.step as int, repeat_last_n as int),
            attenuate,
        )
    }
    &&& match outcome {
        Ok(token) => r == Ok::<Emission, GenerationError>(before.emission_of(token)) && after
            == before.stepped(token),
        Err(cause) => r == Err::<Emission, GenerationError>(GenerationError::Sampling { cause })
            && after == before,
    }
}

/// Gives the token buffer and the end-of-sequence token of a generation from
/// what the tokenizer gave: the ids of the prompt and the id of the
/// end-of-sequence token.
///
/// Fails exactly when the tokenizer has no end-of-sequence token.
pub fn prime(encoded: &Vec<u32>, eos_token: Option<u32>) -> (r: Result<
    (Vec<usize>, usize),
    GenerationError,
>)
    ensures
        r is Ok <==> eos_token is Some,
        r matches Ok((tokens, eos)) ==> {
            &&& eos == eos_token.unwrap()
            &&& tokens@.len() == encoded@.len()
            &&& forall|k: int| 0 <= k < tokens@.len() ==> tokens@[k] == encoded@[k]
        },
        r matches Err(e) ==> e matches GenerationError::TokenNotFound { token } && token@
            == END_OF_SEQUENCE@,
{
    let eos: usize = match eos_token {
        Some(eos) => eos as usize,
        None => {
            return Err(GenerationError::TokenNotFound { token: String::from_str(END_OF_SEQUENCE) });
        },
    };
    let mut tokens: Vec<usize> = Vec::with_capacity(encoded.len());
    let mut k: usize = 0;
    while k < encoded.len()
        invariant
            k <= encoded@.len(),
            tokens@.len() == k,
            forall|j: int| 0 <= j < k ==> tokens@[j] == encoded@[j],
        decreases encoded@.len() - k,
    {
        tokens.push(encoded[k] as usize);
        k = k + 1;
    }
    Ok((tokens, eos))
}

/// Encodes the prompt and gives its ids as the token buffer of a generation,
/// with the id that the vocabulary holds for the end-of-sequence token.
///
/// Fails with `Truncation` exactly where the tokenizer is set to a
/// truncation that cannot be carried out. Else it fails with `Encoding`
/// where the tokenizer cannot encode the prompt, and with `TokenNotFound`
/// where it can and its vocabulary lacks the end-of-sequence token.
pub fn reset_prompt(tokenizer: &Tokenizer, prompt: &str) -> (r: Result<
    (Vec<usize>, usize),
    GenerationError,
>)
    ensures
        r matches Err(GenerationError::Truncation { .. }) <==> truncation_fails(tokenizer),
        match r {
            Ok((tokens, eos)) => {
                &&& end_of_sequence_id(tokenizer) == Some(eos as u32)
                &&& eos <= u32::MAX
                &&& forall|k: int| 0 <= k < tokens@.len() ==> tokens@[k] <= u32::MAX
            },
            Err(GenerationError::Truncation { max_length, stride, added_tokens }) => {
                &&& truncation_settings(tokenizer) == seq![(max_length, stride)]
                &&& added_tokens == self::added_tokens(tokenizer)
            },
            Err(GenerationError::TokenNotFound { token }) => {
                &&& token@ == END_OF_SEQUENCE@
                &&& end_of_sequence_id(tokenizer) is None
            },
            Err(e) => e is Encoding,
        },
        end_of_sequence_id(tokenizer) is None ==> r is Err,
{
    match truncation(tokenizer) {
        Some((max_length, stride)) => {
            let added_tokens: usize = match added_token_count(tokenizer) {
                Some(count) => count,
                None => 0,
            };
            if max_length < added_tokens || (max_length > added_tokens && stride >= max_length
                - added_tokens) {
                return Err(GenerationError::Truncation { max_length, stride, added_tokens });
            }
        },
        None => {},
    }
    let encoded = match encode_ids(tokenizer, prompt) {
        Ok(encoded) => encoded,
        Err(message) => {
            return Err(GenerationError::Encoding { message });
        },
    };
    let eos_token = vocabulary_id(tokenizer, END_OF_SEQUENCE);
    prime(&encoded, eos_token)
}

impl GenerationSession {
    /// Starts a generation of `sample_len` steps at most from the tokens of
    /// the prompt.
    pub fn start(
        tokens: Vec<usize>,
        eos_token: usize,
        sample_len: usize,
        mode: GenerationMode,
    ) -> (r: Self)
        requires
            tokens@.len() > 0 || sample_len == 0,
        ensures
            r@ == SessionState::initial(tokens@, eos_token, sample_len as nat, mode),
            r@.well_formed(),
    {
        GenerationSession {
            tokens,
            eos_token,
            sample_len,
            mode,
            step: 0,
            batch_end: 0,
            finished: false,
        }
    }

    /// The first token of the prompt, which is emitted at once: it is the
    /// seed of the generation and is never predicted.
    pub fn first_token(&self) -> (r: Option<usize>)
        ensures
            r is Some <==> self@.tokens.len() > 0,
            r matches Some(token) ==> token == self@.tokens[0],
    {
        if self.tokens.len() > 0 {
            Some(self.tokens[0])
        } else {
            None
        }
    }

    /// Whether the state is well formed. A session that `start` made and
    /// that only the methods of the engine changed is.
    pub fn is_well_formed(&self) -> (r: bool)
        ensures
            r == self@.well_formed(),
    {
        let within: bool = self.step <= self.sample_len && (self.step < self.tokens.len() || (
        self.step == 0 && self.sample_len == 0)) && self.batch_end <= self.tokens.len();
        match self.mode {
            GenerationMode::Cached => within && self.batch_end == 0,
            GenerationMode::Cacheless => within,
        }
    }

    /// Whether the current step has logits to process: a step is still to
    /// come and, in cacheless mode, the model was run over its position.
    pub fn has_logits(&self) -> (r: bool)
        ensures
            r == self@.has_logits(),
    {
        let active: bool = !self.finished && self.step < self.sample_len;
        match self.mode {
            GenerationMode::Cached => active,
            GenerationMode::Cacheless => active && self.step < self.batch_end,
        }
    }

    /// Whether the model has to be run over the buffer before the current
    /// step has logits.
    pub fn needs_forward(&self) -> (r: bool)
        ensures
            r == self@.needs_forward(),
    {
        let active: bool = !self.finished && self.step < self.sample_len;
        match self.mode {
            GenerationMode::Cached => false,
            GenerationMode::Cacheless => active && self.step >= self.batch_end,
        }
    }

    /// What the driver has to do next.
    pub fn request(&self) -> (r: Request)
        requires
            self@.well_formed(),
        ensures
            r == self@.request(),
    {
        if self.finished || self.step >= self.sample_len {
            Request::Finish
        } else {
            match self.mode {
                GenerationMode::Cached => Request::Step(self.tokens[self.step]),
                GenerationMode::Cacheless => if self.step >= self.batch_end {
                    Request::Forward
                } else {
                    Request::Position(self.step)
                },
            }
        }
    }

    /// Records that the model was run over the whole buffer.
    pub fn forwarded(&mut self)
        requires
            old(self)@.well_formed(),
            old(self)@.needs_forward(),
        ensures
            final(self)@ == old(self)@.forwarded(),
            final(self)@.well_formed(),
            final(self)@.has_logits(),
    {
        self.batch_end = self.tokens.len();
    }

    /// The vocabulary ids whose logits the repetition penalty attenuates at
    /// the current step, `None` where the penalty is the identity.
    pub fn penalty_window(&self, processor: &LogitsProcessorWrapper) -> (r: Option<Vec<u32>>)
        requires
            self@.well_formed(),
            self@.has_logits(),
        ensures
            r is None <==> processor.is_identity(),
            r matches Some(window) ==> window@ == window_of(
                self@.tokens,
                self@.step as int,
                processor.repeat_last_n as int,
            ),
    {
        processor.penalty_window(self.step, &self.tokens)
    }

    /// Whether the current step needs a token drawn by the sampler.
    pub fn needs_draw(&self) -> (r: bool)
        ensures
            r == self@.needs_draw(),
    {
        !(self.step < self.tokens.len() && self.step + 1 < self.tokens.len())
    }

    /// Takes the next token of the current step into the state: the
    /// end-of-sequence token ends the generation, any other token is emitted
    /// and advances the step index.
    fn conclude(&mut self, token: usize) -> (r: Emission)
        requires
            old(self)@.well_formed(),
            old(self)@.has_logits(),
        ensures
            final(self).tokens == old(self).tokens,
            final(self).eos_token == old(self).eos_token,
            final(self).sample_len == old(self).sample_len,
            final(self).mode == old(self).mode,
            final(self).batch_end == old(self).batch_end,
            final(self).finished == (token == old(self).eos_token),
            final(self).step == if token == old(self).eos_token {
                old(self).step as int
            } else {
                old(self).step + 1
            },
            r == old(self)@.emission_of(token),
    {
        if token == self.eos_token {
            self.finished = true;
            Emission::EndOfSequence
        } else {
            self.step = self.step + 1;
            Emission::Token(token)
        }
    }

    /// Concludes the current step with the token that was drawn for it, if
    /// one was.
    ///
    /// Gives `None`, and changes nothing, where the step needs a drawn token
    /// and none is given.
    pub fn accept(&mut self, drawn: Option<u32>) -> (r: Option<Emission>)
        requires
            old(self)@.well_formed(),
            old(self)@.has_logits(),
        ensures
            final(self)@ == old(self)@.accepted(drawn),
            r == old(self)@.emission(drawn),
            r is None <==> old(self)@.needs_draw() && drawn is None,
            final(self)@.well_formed(),
    {
        match take_next(self.step, &mut self.tokens, drawn) {
            None => None,
            Some(token) => Some(self.conclude(token)),
        }
    }

    /// Concludes the current step with the logits of that step. `attenuate`
    /// applies a penalty factor to the logits of the ids of a window.
    ///
    /// Where the buffer holds the next position already, its token is the
    /// next one, and neither penalty nor sampler is called on. Else a token
    /// is drawn: from the logits as they are where the penalty is the
    /// identity, else from what `attenuate` gives for the logits, the factor
    /// of the processor and the window of the step. Where the penalty or the
    /// drawing fails, the call fails with `Sampling` and the state stays as
    /// it is.
    pub fn accept_logits<F: Fn(&Tensor, u32, Vec<u32>) -> Result<Tensor, candle_core::Error>>(
        &mut self,
        processor: &mut LogitsProcessorWrapper,
        logits: &Tensor,
        attenuate: F,
    ) -> (r: Result<Emission, GenerationError>)
        requires
            old(self)@.well_formed(),
            old(self)@.has_logits(),
            forall|window: Vec<u32>|
                window@ == window_of(
                    old(self)@.tokens,
                    old(self)@.step as int,
                    old(processor).repeat_last_n as int,
                ) ==> attenuate.requires((logits, old(processor).repeat_penalty, window)),
        ensures
            final(self)@.well_formed(),
            final(processor).repeat_penalty == old(processor).repeat_penalty,
            final(processor).repeat_last_n == old(processor).repeat_last_n,
            !old(self)@.needs_draw() ==> {
                &&& r matches Ok(emission)
                &&& Some(emission) == old(self)@.emission(None)
                &&& final(self)@ == old(self)@.accepted(None)
                &&& *final(processor) == *old(processor)
            },
            old(self)@.needs_draw() ==> exists|outcome: Result<usize, SamplingError>|
                step_drawn(
                    outcome,
                    r,
                    old(self)@,
                    final(self)@,
                    logits,
                    old(processor).repeat_penalty,
                    old(processor).repeat_last_n,
                    attenuate,
                ),
    {
        let outcome = processor.add_logits(self.step, &mut self.tokens, logits, attenuate);
        let ghost witness = outcome;
        let r = match outcome {
            Ok(token) => {
                let emission = self.conclude(token);
                assert(self@ == old(self)@.stepped(token));
                Ok(emission)
            },
            Err(cause) => Err(GenerationError::Sampling { cause }),
        };
        assert(old(self)@.needs_draw() ==> step_drawn(
            witness,
            r,
            old(self)@,
            self@,
            logits,
            old(processor).repeat_penalty,
            old(processor).repeat_last_n,
            attenuate,
        ));
        r
    }

    /// Number of steps concluded with a token other than the end of the
    /// sequence.
    pub fn steps(&self) -> (r: usize)
        ensures
            r == self@.step,
    {
        self.step
    }
}

} // verus!
