//! The logits processor: the window of the repetition penalty and the choice
//! between replaying a token that is already in the buffer and drawing one
//! with the sampler.
//!
//! The arithmetic of the penalty is the caller's, handed in as a function.
//! This module says over which tokens the penalty runs and with which factor,
//! whether a token is drawn and from which logits, and what becomes of the
//! token buffer.
use crate::sampler::{draw_token, is_distribution, logits_dims, logits_shape};
use candle_core::Tensor;
use candle_transformers::generation::LogitsProcessor;
use vstd::prelude::*;

verus! {

/// Bit pattern of the single-precision value one: the penalty that leaves
/// every logit as it is.
pub const NO_PENALTY: u32 = 0x3f80_0000;

/// Why no token could be drawn.
#[derive(Debug)]
pub enum SamplingError {
    /// The logits are no vector with one element at least: they have these
    /// dimensions.
    Shape { dims: Vec<usize> },
    /// The penalty could not be applied to the logits.
    Penalty { cause: candle_core::Error },
    /// The sampler failed.
    Draw { cause: candle_core::Error },
}

/// The outcome of drawing from the logits and what became of the buffer are
/// as they must be: logits that are no vector with one element at least give
/// `Shape` with their dimensions; from other logits a token is drawn, the
/// index of one of them, and appended to the buffer, or the sampler fails and
/// the outcome is `Draw`. A failure leaves the buffer as it is.
pub open spec fn drawn_from(
    r: Result<usize, SamplingError>,
    before: Seq<usize>,
    after: Seq<usize>,
    logits: &Tensor,
) -> bool {
    if !is_distribution(logits) {
        &&& r matches Err(SamplingError::Shape { dims })
        &&& dims@ == logits_shape(logits)
        &&& after == before
    } else {
        match r {
            Ok(token) => token < logits_shape(logits)[0] && after == before.push(token),
            Err(e) => e is Draw && after == before,
        }
    }
}

/// The outcome of a step that takes the penalty is as it must be: the
/// penalty was applied to the logits of the step, with the factor of the
/// processor, over exactly the window of the step. Where that failed, the
/// outcome is `Penalty` and the buffer is as it was; else the token was drawn
/// from the logits that the penalty gave.
pub open spec fn penalized_step<F: Fn(&Tensor, u32, Vec<u32>) -> Result<Tensor, candle_core::Error>>(
    r: Result<usize, SamplingError>,
    before: Seq<usize>,
    after: Seq<usize>,
    logits: &Tensor,
    repeat_penalty: u32,
    window: Seq<u32>,
    attenuate: F,
) -> bool {
    exists|handed: Vec<u32>, attenuated: Result<Tensor, candle_core::Error>|
        {
            &&& handed@ == window
            &&& attenuate.ensures((logits, repeat_penalty, handed), attenuated)
            &&& match attenuated {
                Ok(logits) => drawn_from(r, before, after, &logits),
                Err(cause) => r == Err::<usize, SamplingError>(SamplingError::Penalty { cause })
                    && after == before,
            }
        }
}


/// The sampler together with the settings of the repetition penalty.
pub struct LogitsProcessorWrapper {
    /// The sampler, with its policy and its random state.
    pub logits_processor: LogitsProcessor,
    /// The penalty factor, as a single-precision bit pattern.
    pub repeat_penalty: u32,
    /// Number of tokens in front of the current one over which the penalty
    /// runs.
    pub repeat_last_n: usize,
}

/// Index of the first token of the penalty window of step `i`.
pub open spec fn window_start(i: int, repeat_last_n: int) -> int {
    if i >= repeat_last_n {
        i - repeat_last_n
    } else {
        0
    }
}

/// The vocabulary ids of `tokens[max(0, i - repeat_last_n) .. i + 1]`.
pub open spec fn window_of(tokens: Seq<usize>, i: int, repeat_last_n: int) -> Seq<u32> {
    Seq::new(
        (i + 1 - window_start(i, repeat_last_n)) as nat,
        |k: int| tokens[window_start(i, repeat_last_n) + k] as u32,
    )
}

/// Whether step `i` finds its next token in the buffer already.
pub open spec fn is_replay(tokens: Seq<usize>, i: int) -> bool {
    i + 1 < tokens.len()
}

/// The next token of step `i`: the one at position `i + 1` where the buffer
/// holds one, else the drawn one, if one was drawn.
pub open spec fn next_token(tokens: Seq<usize>, i: int, drawn: Option<u32>) -> Option<usize> {
    if is_replay(tokens, i) {
        Some(tokens[i + 1])
    } else {
        match drawn {
            Some(token) => Some(token as usize),
            None => None,
        }
    }
}

/// The buffer after step `i`: with the drawn token appended where the step
/// takes it, else unchanged.
pub open spec fn tokens_after(tokens: Seq<usize>, i: int, drawn: Option<u32>) -> Seq<usize> {
    if is_replay(tokens, i) {
        tokens
    } else {
        match drawn {
            Some(token) => tokens.push(token as usize),
            None => tokens,
        }
    }
}

impl LogitsProcessorWrapper {
    /// A processor that draws with the given sampler and attenuates with the
    /// given penalty factor, a single-precision bit pattern, over a window of
    /// the given length.
    pub fn new(logits_processor: LogitsProcessor, repeat_penalty: u32, repeat_last_n: usize) -> (r:
        Self)
        ensures
            r.logits_processor == logits_processor,
            r.repeat_penalty == repeat_penalty,
            r.repeat_last_n == repeat_last_n,
    {
        LogitsProcessorWrapper { logits_processor, repeat_penalty, repeat_last_n }
    }

    /// Whether the penalty leaves the logits as they are.
    pub open spec fn spec_is_identity(&self) -> bool {
        self.repeat_penalty == NO_PENALTY
    }

    /// Whether the penalty leaves the logits as they are.
    #[verifier::when_used_as_spec(spec_is_identity)]
    pub fn is_identity(&self) -> (r: bool)
        ensures
            r == self.spec_is_identity(),
    {
        self.repeat_penalty == NO_PENALTY
    }

    /// The vocabulary ids whose logits the penalty attenuates at step `i`:
    /// `None` where the penalty is the identity, else the ids of
    /// `tokens[max(0, i - repeat_last_n) .. i + 1]`, in that order.
    pub fn penalty_window(&self, i: usize, tokens: &Vec<usize>) -> (r: Option<Vec<u32>>)
        requires
            self.is_identity() || i < tokens@.len(),
        ensures
            r is None <==> self.is_identity(),
            r matches Some(window) ==> window@ == window_of(
                tokens@,
                i as int,
                self.repeat_last_n as int,
            ),
    {
        if self.is_identity() {
            return None;
        }
        let len: usize = tokens.len();
        let start: usize = if i >= self.repeat_last_n {
            i - self.repeat_last_n
        } else {
            0
        };
        let mut window: Vec<u32> = Vec::with_capacity(i + 1 - start);
        let mut k: usize = start;
        while k <= i
            invariant
                start == window_start(i as int, self.repeat_last_n as int),
                i < tokens@.len() == len,
                start <= k <= i + 1,
                window@.len() == k - start,
                forall|j: int| 0 <= j < window@.len() ==> window@[j] == tokens@[start + j] as u32,
            decreases i + 1 - k,
        {
            window.push(#[verifier::truncate] (tokens[k] as u32));
            k = k + 1;
        }
        assert(window@ =~= window_of(tokens@, i as int, self.repeat_last_n as int));
        Some(window)
    }

    /// Whether step `i` needs a token drawn by the sampler: it does not where
    /// the buffer holds position `i + 1` already.
    pub fn needs_draw(&self, i: usize, tokens: &Vec<usize>) -> (r: bool)
        ensures
            r == !is_replay(tokens@, i as int),
    {
        !(i < tokens.len() && i + 1 < tokens.len())
    }

    /// Draws a token from the logits and appends it to the buffer.
    ///
    /// The logits have to be a vector with one element at least, or the call
    /// fails with `Shape`. The token that is drawn is the index of one of
    /// them. Where drawing fails, the call fails with `Draw`. A call that
    /// fails leaves the buffer as it is.
    pub fn draw_next(&mut self, tokens: &mut Vec<usize>, logits: &Tensor) -> (r: Result<
        usize,
        SamplingError,
    >)
        ensures
            final(self).repeat_penalty == old(self).repeat_penalty,
            final(self).repeat_last_n == old(self).repeat_last_n,
            drawn_from(r, old(tokens)@, final(tokens)@, logits),
            !is_distribution(logits) ==> *final(self) == *old(self),
    {
        let dims = logits_dims(logits);
        if dims.len() != 1 || dims[0] == 0 {
            return Err(SamplingError::Shape { dims });
        }
        match draw_token(&mut self.logits_processor, logits) {
            Ok(drawn) => {
                let token: usize = drawn as usize;
                tokens.push(token);
                Ok(token)
            },
            Err(cause) => Err(SamplingError::Draw { cause }),
        }
    }

    /// Concludes step `i` with the logits of that step and gives its next
    /// token. `attenuate` applies a penalty factor to the logits of the ids of
    /// a window.
    ///
    /// Where the buffer holds position `i + 1` already, that token is the
    /// next one: no penalty is applied, nothing is drawn, the sampler keeps
    /// its state and the buffer stays as it is. Else a token is drawn and
    /// appended to the buffer: from the logits as they are where the penalty
    /// is the identity, else from what `attenuate` gives for the logits, the
    /// factor of the processor and the window
    /// `tokens[max(0, i - repeat_last_n) .. i + 1]`.
    pub fn add_logits<F: Fn(&Tensor, u32, Vec<u32>) -> Result<Tensor, candle_core::Error>>(
        &mut self,
        i: usize,
        tokens: &mut Vec<usize>,
        logits: &Tensor,
        attenuate: F,
    ) -> (r: Result<usize, SamplingError>)
        requires
            old(self).is_identity() || i < old(tokens)@.len(),
            forall|window: Vec<u32>|
                window@ == window_of(old(tokens)@, i as int, old(self).repeat_last_n as int)
                    ==> attenuate.requires((logits, old(self).repeat_penalty, window)),
        ensures
            final(self).repeat_penalty == old(self).repeat_penalty,
            final(self).repeat_last_n == old(self).repeat_last_n,
            is_replay(old(tokens)@, i as int) ==> {
                &&& r matches Ok(token)
                &&& token == old(tokens)@[i + 1]
                &&& final(tokens)@ == old(tokens)@
                &&& *final(self) == *old(self)
            },
            !is_replay(old(tokens)@, i as int) && old(self).is_identity() ==> drawn_from(
                r,
                old(tokens)@,
                final(tokens)@,
                logits,
            ) && (!is_distribution(logits) ==> *final(self) == *old(self)),
            !is_replay(old(tokens)@, i as int) && !old(self).is_identity() ==> penalized_step(
                r,
                old(tokens)@,
                final(tokens)@,
                logits,
                old(self).repeat_penalty,
                window_of(old(tokens)@, i as int, old(self).repeat_last_n as int),
                attenuate,
            ),
    {
        if i < tokens.len() && i + 1 < tokens.len() {
            return Ok(tokens[i + 1]);
        }
        match self.penalty_window(i, tokens) {
            None => self.draw_next(tokens, logits),
            Some(window) => {
                let ghost handed = window;
                let attenuated = attenuate(logits, self.repeat_penalty, window);
                match attenuated {
                    Ok(attenuated) => {
                        let r = self.draw_next(tokens, &attenuated);
                        assert(attenuate.ensures(
                            (logits, old(self).repeat_penalty, handed),
                            Ok::<Tensor, candle_core::Error>(attenuated),
                        ));
                        r
                    },
                    Err(cause) => {
                        assert(attenuate.ensures(
                            (logits, old(self).repeat_penalty, handed),
                            Err::<Tensor, candle_core::Error>(cause),
                        ));
                        Err(SamplingError::Penalty { cause })
                    },
                }
            },
        }
    }
}

/// Concludes step `i` with the token that was drawn for it, if one was, and
/// gives its next token.
///
/// Where the buffer holds position `i + 1` already, that token is the next
/// one, and the buffer stays as it is, whatever was drawn. Else the drawn
/// token is the next one and is appended to the buffer. Where the step needs a
/// drawn token and none is given, there is no next token yet, and the buffer
/// stays as it is.
pub fn take_next(i: usize, tokens: &mut Vec<usize>, drawn: Option<u32>) -> (r: Option<usize>)
    ensures
        r == next_token(old(tokens)@, i as int, drawn),
        final(tokens)@ == tokens_after(old(tokens)@, i as int, drawn),
        r is None <==> !is_replay(old(tokens)@, i as int) && drawn is None,
{
    if i < tokens.len() && i + 1 < tokens.len() {
        Some(tokens[i + 1])
    } else {
        match drawn {
            Some(token) => {
                tokens.push(token as usize);
                Some(token as usize)
            },
            None => None,
        }
    }
}

/// A step whose next token is in the buffer already returns that token and
/// leaves the buffer as it is, with or without a drawn token. Only a step at
/// the end of the buffer makes the buffer grow, and then by the drawn token
/// alone.
pub proof fn lemma_replay_does_not_draw(tokens: Seq<usize>, i: int, drawn: Option<u32>)
    requires
        0 <= i,
    ensures
        i + 1 < tokens.len() ==> next_token(tokens, i, drawn) == Some(tokens[i + 1])
            && tokens_after(tokens, i, drawn) == tokens,
        i + 1 >= tokens.len() && drawn is Some ==> tokens_after(tokens, i, drawn).len()
            == tokens.len() + 1 && next_token(tokens, i, drawn) == Some(
            tokens_after(tokens, i, drawn).last(),
        ),
        tokens_after(tokens, i, drawn).len() != tokens.len() ==> i + 1 >= tokens.len(),
{
}

/// The window of a step holds the token of the step and the `repeat_last_n`
/// tokens in front of it, as far as there are that many. Tokens outside these
/// positions have no part in it: two buffers that agree on them have the same
/// window.
pub proof fn lemma_window_ignores_the_rest(
    tokens: Seq<usize>,
    other: Seq<usize>,
    i: int,
    repeat_last_n: int,
)
    requires
        0 <= i < tokens.len(),
        i < other.len(),
        0 <= repeat_last_n,
        forall|k: int| window_start(i, repeat_last_n) <= k <= i ==> tokens[k] == other[k],
    ensures
        window_of(tokens, i, repeat_last_n).len() == if i >= repeat_last_n {
            repeat_last_n + 1
        } else {
            i + 1
        },
        window_of(tokens, i, repeat_last_n) == window_of(other, i, repeat_last_n),
{
    assert(window_of(tokens, i, repeat_last_n) =~= window_of(other, i, repeat_last_n));
}

} // verus!
