use candle_core::{Device, Tensor};
use candle_transformers::generation::LogitsProcessor;
use candle_transformers::utils::apply_repeat_penalty;
use mamba_inference::generation::{
    prime, reset_prompt, Emission, GenerationError, GenerationMode, GenerationSession, Request,
};
use mamba_inference::logits::{LogitsProcessorWrapper, NO_PENALTY};
use tokenizers::Tokenizer;

const VOCAB: usize = 16;

/// The penalty as the front end applies it: a logit of the window is divided
/// by the factor where it is positive, multiplied where it is negative.
fn attenuate(logits: &Tensor, penalty: u32, window: Vec<u32>) -> candle_core::Result<Tensor> {
    apply_repeat_penalty(logits, f32::from_bits(penalty), &window)
}


/// A stand-in for the model: the token that it favours after a prefix.
fn favoured(prefix: &[usize]) -> usize {
    let mut h: usize = 7;
    for t in prefix {
        h = (h * 31 + t + 1) % 1009;
    }
    h % VOCAB
}

fn logits_after(prefix: &[usize]) -> Tensor {
    let mut values = vec![0.0f32; VOCAB];
    values[favoured(prefix)] = 3.0;
    Tensor::from_vec(values, VOCAB, &Device::Cpu).unwrap()
}

fn greedy() -> LogitsProcessorWrapper {
    LogitsProcessorWrapper::new(LogitsProcessor::new(299792458, None, None), NO_PENALTY, 1024)
}

/// What a generation gave: the tokens emitted, the steps counted, the buffer
/// at the end, and whether the decoder was flushed.
#[derive(Debug, PartialEq)]
struct Outcome {
    emitted: Vec<usize>,
    steps: usize,
    tokens: Vec<usize>,
    flushed: bool,
}

/// Drives a generation as a front end does, with the stand-in model and the
/// greedy sampler. Gives the outcome and the number of runs of the model.
fn drive(prompt: &[usize], eos: usize, sample_len: usize, mode: GenerationMode) -> (Outcome, usize) {
    let mut session = GenerationSession::start(prompt.to_vec(), eos, sample_len, mode);
    let mut processor = greedy();
    let mut emitted = Vec::new();
    if let Some(first) = session.first_token() {
        emitted.push(first);
    }
    let mut runs = 0;
    let mut batch: Vec<Tensor> = Vec::new();
    let mut flushed = false;
    for _ in 0..10_000 {
        let logits = match session.request() {
            Request::Finish => {
                flushed = true;
                break;
            }
            Request::Step(input) => {
                assert_eq!(mode, GenerationMode::Cached);
                assert_eq!(input, session.tokens[session.step]);
                runs += 1;
                logits_after(&session.tokens[..=session.step])
            }
            Request::Forward => {
                assert_eq!(mode, GenerationMode::Cacheless);
                runs += 1;
                batch = (0..session.tokens.len())
                    .map(|p| logits_after(&session.tokens[..=p]))
                    .collect();
                session.forwarded();
                continue;
            }
            Request::Position(p) => {
                assert_eq!(mode, GenerationMode::Cacheless);
                assert_eq!(p, session.step);
                batch[p].clone()
            }
        };
        assert!(session.penalty_window(&processor).is_none());
        match session.accept_logits(&mut processor, &logits, attenuate).unwrap() {
            Emission::Token(token) => emitted.push(token),
            Emission::EndOfSequence => {}
        }
    }
    let outcome = Outcome { emitted, steps: session.steps(), tokens: session.tokens, flushed };
    (outcome, runs)
}

#[test]
fn cached_generation_from_one_token() {
    let (outcome, runs) = drive(&[3], 99, 5, GenerationMode::Cached);
    let mut expected = vec![3];
    for _ in 0..5 {
        let next = favoured(&expected);
        expected.push(next);
    }
    assert_eq!(outcome.tokens, expected);
    assert_eq!(outcome.emitted, expected);
    assert_eq!(outcome.steps, 5);
    assert!(outcome.flushed);
    assert_eq!(runs, 5);
}

#[test]
fn mode_equivalence() {
    let prompts: [&[usize]; 5] = [&[3], &[3, 1], &[0, 1, 2, 3], &[5, 5, 5, 5, 5, 5], &[2, 9, 4]];
    for prompt in prompts {
        for sample_len in 0..12 {
            for eos in [99usize, 4, favoured(prompt), prompt[prompt.len() - 1]] {
                let (cached, _) = drive(prompt, eos, sample_len, GenerationMode::Cached);
                let (cacheless, _) = drive(prompt, eos, sample_len, GenerationMode::Cacheless);
                assert_eq!(cached, cacheless);
                assert!(cached.steps <= sample_len);
                assert_eq!(cached.emitted.len(), cached.steps + 1);
                assert_eq!(cached.emitted[..], cached.tokens[..cached.steps + 1]);
            }
        }
    }
}

#[test]
fn the_cacheless_mode_runs_the_model_once_for_the_prompt() {
    let (outcome, runs) = drive(&[0, 1, 2, 3], 99, 6, GenerationMode::Cacheless);
    assert_eq!(outcome.steps, 6);
    // one run covers the four positions of the prompt, each later step has
    // its own
    assert_eq!(runs, 3);
    let (outcome, runs) = drive(&[0, 1, 2, 3], 99, 6, GenerationMode::Cached);
    assert_eq!(outcome.steps, 6);
    assert_eq!(runs, 6);
}

#[test]
fn generation_stops_after_sample_len_steps_inside_the_prompt() {
    for mode in [GenerationMode::Cached, GenerationMode::Cacheless] {
        let (outcome, _) = drive(&[0, 1, 2, 3, 4, 5], 99, 2, mode);
        assert_eq!(outcome.steps, 2);
        assert_eq!(outcome.emitted, vec![0, 1, 2]);
        assert_eq!(outcome.tokens, vec![0, 1, 2, 3, 4, 5]);
        assert!(outcome.flushed);
    }
}

#[test]
fn eos_termination() {
    for mode in [GenerationMode::Cached, GenerationMode::Cacheless] {
        // the continuation that is forced at step 0 is the end of the sequence
        let (outcome, _) = drive(&[7, 42], 42, 10, mode);
        assert_eq!(outcome.steps, 0);
        assert_eq!(outcome.emitted, vec![7]);
        assert_eq!(outcome.tokens, vec![7, 42]);
        assert!(outcome.flushed);
    }
}

#[test]
fn a_drawn_end_of_sequence_ends_the_generation() {
    for mode in [GenerationMode::Cached, GenerationMode::Cacheless] {
        let eos = favoured(&[3, 1]);
        let (outcome, _) = drive(&[3, 1], eos, 10, mode);
        assert_eq!(outcome.steps, 1);
        assert_eq!(outcome.emitted, vec![3, 1]);
        assert_eq!(outcome.tokens, vec![3, 1, eos]);
        assert!(outcome.flushed);
    }
}

#[test]
fn nothing_is_generated_in_no_steps() {
    for mode in [GenerationMode::Cached, GenerationMode::Cacheless] {
        let (outcome, runs) = drive(&[3, 1], 99, 0, mode);
        assert_eq!(outcome.steps, 0);
        assert_eq!(outcome.emitted, vec![3]);
        assert_eq!(outcome.tokens, vec![3, 1]);
        assert_eq!(runs, 0);
        assert!(outcome.flushed);
        let (outcome, runs) = drive(&[], 99, 0, mode);
        assert_eq!(outcome.steps, 0);
        assert!(outcome.emitted.is_empty());
        assert_eq!(runs, 0);
        assert!(outcome.flushed);
    }
}

#[test]
fn requests_of_a_cached_session() {
    let mut session = GenerationSession::start(vec![4, 5], 0, 3, GenerationMode::Cached);
    assert_eq!(session.first_token(), Some(4));
    assert_eq!(session.request(), Request::Step(4));
    assert!(!session.needs_draw());
    assert_eq!(session.accept(None), Some(Emission::Token(5)));
    assert_eq!(session.request(), Request::Step(5));
    assert!(session.needs_draw());
    // without a drawn token the step is not concluded
    assert_eq!(session.accept(None), None);
    assert_eq!(session.steps(), 1);
    assert_eq!(session.request(), Request::Step(5));
    assert_eq!(session.accept(Some(6)), Some(Emission::Token(6)));
    assert_eq!(session.tokens, vec![4, 5, 6]);
    assert_eq!(session.request(), Request::Step(6));
    assert_eq!(session.accept(Some(0)), Some(Emission::EndOfSequence));
    assert_eq!(session.tokens, vec![4, 5, 6, 0]);
    assert_eq!(session.steps(), 2);
    assert!(session.finished);
    assert_eq!(session.request(), Request::Finish);
}

#[test]
fn requests_of_a_cacheless_session() {
    let mut session = GenerationSession::start(vec![4, 5], 0, 3, GenerationMode::Cacheless);
    assert_eq!(session.request(), Request::Forward);
    session.forwarded();
    assert_eq!(session.request(), Request::Position(0));
    assert_eq!(session.accept(Some(9)), Some(Emission::Token(5)));
    assert_eq!(session.tokens, vec![4, 5]);
    assert_eq!(session.request(), Request::Position(1));
    assert_eq!(session.accept(Some(9)), Some(Emission::Token(9)));
    assert_eq!(session.tokens, vec![4, 5, 9]);
    // the last run did not see the new token
    assert_eq!(session.request(), Request::Forward);
    session.forwarded();
    assert_eq!(session.request(), Request::Position(2));
    assert_eq!(session.accept(Some(1)), Some(Emission::Token(1)));
    assert_eq!(session.steps(), 3);
    assert_eq!(session.request(), Request::Finish);
    assert!(!session.finished);
}

#[test]
fn penalty_window_of_a_session() {
    let mut session = GenerationSession::start(vec![4, 5, 6, 7], 0, 9, GenerationMode::Cached);
    let processor = LogitsProcessorWrapper::new(
        LogitsProcessor::new(1, None, None),
        1.1f32.to_bits(),
        1,
    );
    assert_eq!(session.penalty_window(&processor), Some(vec![4]));
    session.accept(None);
    assert_eq!(session.penalty_window(&processor), Some(vec![4, 5]));
    session.accept(None);
    assert_eq!(session.penalty_window(&processor), Some(vec![5, 6]));
}

#[test]
fn a_failed_draw_leaves_the_session() {
    let mut session = GenerationSession::start(vec![4], 0, 9, GenerationMode::Cached);
    let mut processor = greedy();
    let logits = Tensor::from_vec(vec![0.0f32; 4], (2, 2), &Device::Cpu).unwrap();
    let r = session.accept_logits(&mut processor, &logits, attenuate);
    assert!(matches!(r, Err(GenerationError::Sampling { .. })));
    assert_eq!(session.tokens, vec![4]);
    assert_eq!(session.steps(), 0);
    assert!(!session.finished);
    assert_eq!(session.request(), Request::Step(4));
}

#[test]
fn prime_maps_the_ids() {
    let (tokens, eos) = prime(&vec![5, 0, u32::MAX], Some(7)).unwrap();
    assert_eq!(tokens, vec![5, 0, u32::MAX as usize]);
    assert_eq!(eos, 7);
    let (tokens, eos) = prime(&vec![], Some(0)).unwrap();
    assert!(tokens.is_empty());
    assert_eq!(eos, 0);
}

#[test]
fn prime_without_end_of_sequence_token() {
    assert!(matches!(prime(&vec![1, 2], None), Err(GenerationError::TokenNotFound { .. })));
    assert!(matches!(prime(&vec![], None), Err(GenerationError::TokenNotFound { .. })));
}

fn tokenizer(vocabulary: &str) -> Tokenizer {
    let definition = format!(
        "{{\"version\":\"1.0\",\"truncation\":null,\"padding\":null,\"added_tokens\":[],\
         \"normalizer\":null,\"pre_tokenizer\":{{\"type\":\"Whitespace\"}},\
         \"post_processor\":null,\"decoder\":null,\
         \"model\":{{\"type\":\"WordLevel\",\"vocab\":{{{}}},\"unk_token\":\"[UNK]\"}}}}",
        vocabulary
    );
    Tokenizer::from_bytes(definition.as_bytes()).unwrap()
}

#[test]
fn reset_prompt_encodes_the_prompt() {
    let t = tokenizer("\"[UNK]\":0,\"Mamba\":1,\"is\":2,\"the\":3,\"<|endoftext|>\":9");
    let (tokens, eos) = reset_prompt(&t, "Mamba is the").unwrap();
    assert_eq!(tokens, vec![1, 2, 3]);
    assert_eq!(eos, 9);
    let (tokens, eos) = reset_prompt(&t, "the Mamba was").unwrap();
    assert_eq!(tokens, vec![3, 1, 0]);
    assert_eq!(eos, 9);
    let (tokens, _) = reset_prompt(&t, "").unwrap();
    assert!(tokens.is_empty());
}

#[test]
fn reset_prompt_without_end_of_sequence_token() {
    let t = tokenizer("\"[UNK]\":0,\"Mamba\":1,\"is\":2,\"the\":3");
    assert!(matches!(reset_prompt(&t, "Mamba is the"), Err(GenerationError::TokenNotFound { .. })));
}

#[test]
fn reset_prompt_where_encoding_fails() {
    // a word-level vocabulary without its unknown token cannot encode a
    // word that it does not hold
    let t = tokenizer("\"Mamba\":1,\"<|endoftext|>\":9");
    match reset_prompt(&t, "Mamba is") {
        Err(GenerationError::Encoding { message }) => assert!(!message.is_empty()),
        other => panic!("{:?}", other),
    }
}

#[test]
fn reset_prompt_finds_an_added_end_of_sequence_token() {
    // the token is not in the vocabulary of the model: it was added to it
    let definition = "{\"version\":\"1.0\",\"truncation\":null,\"padding\":null,\
        \"added_tokens\":[{\"id\":4,\"content\":\"<|endoftext|>\",\"single_word\":false,\
        \"lstrip\":false,\"rstrip\":false,\"normalized\":false,\"special\":true}],\
        \"normalizer\":null,\"pre_tokenizer\":{\"type\":\"Whitespace\"},\
        \"post_processor\":null,\"decoder\":null,\
        \"model\":{\"type\":\"WordLevel\",\
        \"vocab\":{\"[UNK]\":0,\"Mamba\":1,\"is\":2,\"the\":3},\"unk_token\":\"[UNK]\"}}";
    let t = Tokenizer::from_bytes(definition.as_bytes()).unwrap();
    let (tokens, eos) = reset_prompt(&t, "the Mamba").unwrap();
    assert_eq!(tokens, vec![3, 1]);
    assert_eq!(eos, 4);
}

#[test]
fn a_missing_end_of_sequence_token_is_named() {
    let t = tokenizer("\"[UNK]\":0,\"Mamba\":1");
    match reset_prompt(&t, "Mamba") {
        Err(GenerationError::TokenNotFound { token }) => assert_eq!(token, "<|endoftext|>"),
        other => panic!("{:?}", other),
    }
    match prime(&vec![1], None) {
        Err(e) => assert_eq!(e.message(), "cannot find the <|endoftext|> token"),
        other => panic!("{:?}", other),
    }
}

#[test]
fn messages_of_generation_errors() {
    let e = GenerationError::Encoding { message: "no such word".to_string() };
    assert_eq!(e.message(), "cannot encode the prompt: no such word");
    let e = GenerationError::TokenNotFound { token: "</s>".to_string() };
    assert_eq!(e.message(), "cannot find the </s> token");
    let mut session = GenerationSession::start(vec![4], 0, 9, GenerationMode::Cached);
    let mut processor = greedy();
    let scalar = Tensor::new(1.0f32, &Device::Cpu).unwrap();
    let e = session.accept_logits(&mut processor, &scalar, attenuate).unwrap_err();
    assert_eq!(e.message(), "cannot draw a token: the logits are no vector with an element");
}

#[test]
fn logits_that_are_no_vector_leave_the_session() {
    let policies: [(Option<f64>, Option<f64>); 3] =
        [(None, None), (Some(0.8), None), (Some(0.8), Some(0.9))];
    for (temperature, top_p) in policies {
        let mut processor = LogitsProcessorWrapper::new(
            LogitsProcessor::new(11, temperature, top_p),
            NO_PENALTY,
            4,
        );
        let tensors = [
            Tensor::new(1.0f32, &Device::Cpu).unwrap(),
            Tensor::from_vec(Vec::<f32>::new(), 0, &Device::Cpu).unwrap(),
            Tensor::from_vec(Vec::<f32>::new(), (3, 0), &Device::Cpu).unwrap(),
            Tensor::from_vec(vec![0.0f32; 6], (2, 3), &Device::Cpu).unwrap(),
        ];
        for logits in &tensors {
            let mut session = GenerationSession::start(vec![4], 0, 9, GenerationMode::Cached);
            let r = session.accept_logits(&mut processor, logits, attenuate);
            match r {
                Err(GenerationError::Sampling { cause }) => match cause {
                    mamba_inference::logits::SamplingError::Shape { dims } => {
                        assert_eq!(dims, logits.dims().to_vec())
                    }
                    other => panic!("{:?}", other),
                },
                other => panic!("{:?}", other),
            }
            assert_eq!(session.tokens, vec![4]);
            assert_eq!(session.steps(), 0);
        }
    }
}

#[test]
fn a_session_knows_its_state() {
    let mut session = GenerationSession::start(vec![4, 5], 0, 2, GenerationMode::Cacheless);
    assert!(session.is_well_formed());
    assert!(session.needs_forward());
    assert!(!session.has_logits());
    session.forwarded();
    assert!(session.is_well_formed());
    assert!(!session.needs_forward());
    assert!(session.has_logits());
    session.accept(None);
    session.accept(Some(7));
    assert!(session.is_well_formed());
    assert!(!session.needs_forward());
    assert!(!session.has_logits());
    // a state that no generation reaches
    session.step = 5;
    assert!(!session.is_well_formed());
    let mut cached = GenerationSession::start(vec![4], 0, 2, GenerationMode::Cached);
    assert!(cached.is_well_formed());
    assert!(cached.has_logits());
    assert!(!cached.needs_forward());
    cached.batch_end = 1;
    assert!(!cached.is_well_formed());
    let empty = GenerationSession::start(vec![], 0, 0, GenerationMode::Cached);
    assert!(empty.is_well_formed());
    assert!(!empty.has_logits());
}

/// A word-level tokenizer with the given truncation, padding and
/// post-processor.
fn shaped(truncation: &str, padding: &str, post_processor: &str) -> Tokenizer {
    let definition = format!(
        "{{\"version\":\"1.0\",\"truncation\":{},\"padding\":{},\"added_tokens\":[],\
         \"normalizer\":null,\"pre_tokenizer\":{{\"type\":\"Whitespace\"}},\
         \"post_processor\":{},\"decoder\":null,\
         \"model\":{{\"type\":\"WordLevel\",\"vocab\":{{\"[UNK]\":0,\"Mamba\":1,\
         \"<|endoftext|>\":2,\"[CLS]\":3,\"[SEP]\":4}},\"unk_token\":\"[UNK]\"}}}}",
        truncation, padding, post_processor
    );
    Tokenizer::from_bytes(definition.as_bytes()).unwrap()
}

fn truncation(max_length: usize, stride: usize) -> String {
    format!(
        "{{\"direction\":\"Right\",\"max_length\":{},\"strategy\":\"LongestFirst\",\
         \"stride\":{}}}",
        max_length, stride
    )
}

/// A post-processor that adds two tokens to the encoding of one text.
const BERT: &str = "{\"type\":\"BertProcessing\",\"sep\":[\"[SEP]\",4],\"cls\":[\"[CLS]\",3]}";

#[test]
fn a_tokenizer_that_pads_gives_the_padded_ids() {
    let padding = "{\"strategy\":{\"Fixed\":8},\"direction\":\"Right\",\
                   \"pad_to_multiple_of\":null,\"pad_id\":0,\"pad_type_id\":0,\
                   \"pad_token\":\"[UNK]\"}";
    let t = shaped("null", padding, "null");
    let (tokens, eos) = reset_prompt(&t, "Mamba Mamba Mamba").unwrap();
    assert_eq!(tokens, vec![1, 1, 1, 0, 0, 0, 0, 0]);
    assert_eq!(eos, 2);
}

#[test]
fn a_tokenizer_that_truncates_gives_the_truncated_ids() {
    let (tokens, _) = reset_prompt(&shaped(&truncation(2, 0), "null", "null"), "Mamba Mamba Mamba")
        .unwrap();
    assert_eq!(tokens, vec![1, 1]);
    let (tokens, _) = reset_prompt(&shaped(&truncation(2, 1), "null", "null"), "Mamba Mamba Mamba")
        .unwrap();
    assert_eq!(tokens, vec![1, 1]);
    // two tokens are added, one is left for the text
    let (tokens, _) = reset_prompt(&shaped(&truncation(3, 0), "null", BERT), "Mamba Mamba Mamba")
        .unwrap();
    assert_eq!(tokens, vec![3, 1, 4]);
    // nothing is left for the text
    let (tokens, _) = reset_prompt(&shaped(&truncation(2, 5), "null", BERT), "Mamba Mamba Mamba")
        .unwrap();
    assert_eq!(tokens, vec![3, 4]);
    let (tokens, _) = reset_prompt(&shaped(&truncation(0, 5), "null", "null"), "Mamba Mamba")
        .unwrap();
    assert!(tokens.is_empty());
}

#[test]
fn a_truncation_that_cannot_be_carried_out_is_refused() {
    // the stride is not below the length; a short prompt is refused as well
    for prompt in ["Mamba Mamba Mamba", "Mamba", ""] {
        match reset_prompt(&shaped(&truncation(2, 2), "null", "null"), prompt) {
            Err(GenerationError::Truncation { max_length, stride, added_tokens }) => {
                assert_eq!((max_length, stride, added_tokens), (2, 2, 0))
            }
            other => panic!("{:?}", other),
        }
    }
    // the stride is not below what the added tokens leave of the length
    match reset_prompt(&shaped(&truncation(3, 1), "null", BERT), "Mamba Mamba Mamba") {
        Err(e) => {
            assert!(matches!(
                e,
                GenerationError::Truncation { max_length: 3, stride: 1, added_tokens: 2 }
            ));
            assert_eq!(
                e.message(),
                "the tokenizer cannot truncate to 3 tokens with a stride of 1 beside the 2 \
                 tokens that it adds"
            );
        }
        other => panic!("{:?}", other),
    }
    // the added tokens do not fit in the length
    match reset_prompt(&shaped(&truncation(1, 0), "null", BERT), "Mamba") {
        Err(GenerationError::Truncation { max_length, stride, added_tokens }) => {
            assert_eq!((max_length, stride, added_tokens), (1, 0, 2))
        }
        other => panic!("{:?}", other),
    }
    // the refusal comes before the vocabulary is asked for the end token
    let definition = "{\"version\":\"1.0\",\"truncation\":{\"direction\":\"Right\",\
        \"max_length\":2,\"strategy\":\"LongestFirst\",\"stride\":2},\"padding\":null,\
        \"added_tokens\":[],\"normalizer\":null,\"pre_tokenizer\":{\"type\":\"Whitespace\"},\
        \"post_processor\":null,\"decoder\":null,\"model\":{\"type\":\"WordLevel\",\
        \"vocab\":{\"[UNK]\":0},\"unk_token\":\"[UNK]\"}}";
    let t = Tokenizer::from_bytes(definition.as_bytes()).unwrap();
    assert!(matches!(reset_prompt(&t, "x"), Err(GenerationError::Truncation { .. })));
}

#[test]
fn a_session_applies_the_penalty_of_its_processor() {
    let mut session = GenerationSession::start(vec![5], 99, 3, GenerationMode::Cached);
    let mut processor =
        LogitsProcessorWrapper::new(LogitsProcessor::new(1, None, None), 16.0f32.to_bits(), 8);
    let logits = Tensor::from_vec(vec![0.0f32, 1.0, 3.0, 0.0, 0.0, 8.0], 6, &Device::Cpu).unwrap();
    // token 5 is in the window: its logit falls below that of token 2
    let emission = session.accept_logits(&mut processor, &logits, attenuate).unwrap();
    assert_eq!(emission, Emission::Token(2));
    // now 5 and 2 are in the window
    let emission = session.accept_logits(&mut processor, &logits, attenuate).unwrap();
    assert_eq!(emission, Emission::Token(1));
    assert_eq!(session.tokens, vec![5, 2, 1]);
}
