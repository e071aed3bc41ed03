use candle_core::{Device, Tensor};
use candle_transformers::generation::LogitsProcessor;
use candle_transformers::utils::apply_repeat_penalty;
use mamba_inference::logits::{take_next, LogitsProcessorWrapper, SamplingError, NO_PENALTY};

/// The penalty as the front end applies it: a logit of the window is divided
/// by the factor where it is positive, multiplied where it is negative.
fn attenuate(logits: &Tensor, penalty: u32, window: Vec<u32>) -> candle_core::Result<Tensor> {
    apply_repeat_penalty(logits, f32::from_bits(penalty), &window)
}

fn processor(repeat_penalty: f32, repeat_last_n: usize) -> LogitsProcessorWrapper {
    LogitsProcessorWrapper::new(
        LogitsProcessor::new(299792458, None, None),
        repeat_penalty.to_bits(),
        repeat_last_n,
    )
}

/// Logits whose greatest entry is at `best`.
fn logits_with_best(len: usize, best: usize) -> Tensor {
    let mut values = vec![0.0f32; len];
    values[best] = 5.0;
    Tensor::from_vec(values, len, &Device::Cpu).unwrap()
}

#[test]
fn the_identity_penalty_is_one() {
    assert_eq!(NO_PENALTY, 1.0f32.to_bits());
    assert!(processor(1.0, 64).is_identity());
    assert!(!processor(1.1, 64).is_identity());
    assert!(!processor(-1.0, 64).is_identity());
    assert!(!processor(0.0, 64).is_identity());
    assert!(!processor(f32::NAN, 64).is_identity());
}

#[test]
fn no_window_without_penalty() {
    let tokens = vec![1, 2, 3];
    assert_eq!(processor(1.0, 2).penalty_window(1, &tokens), None);
    // the step may lie beyond the buffer then
    assert_eq!(processor(1.0, 2).penalty_window(7, &tokens), None);
}

#[test]
fn repeat_penalty_window_boundary() {
    let tokens = vec![10, 11, 12, 13, 14, 15, 16, 17];
    let p = processor(1.1, 2);
    assert_eq!(p.penalty_window(5, &tokens), Some(vec![13, 14, 15]));
}

#[test]
fn penalty_window_at_the_start_of_the_buffer() {
    let tokens = vec![10, 11, 12, 13];
    let p = processor(1.1, 2);
    assert_eq!(p.penalty_window(0, &tokens), Some(vec![10]));
    assert_eq!(p.penalty_window(1, &tokens), Some(vec![10, 11]));
    assert_eq!(p.penalty_window(2, &tokens), Some(vec![10, 11, 12]));
    assert_eq!(p.penalty_window(3, &tokens), Some(vec![11, 12, 13]));
}

#[test]
fn penalty_window_of_other_lengths() {
    let tokens = vec![10, 11, 12, 13];
    assert_eq!(processor(1.1, 0).penalty_window(2, &tokens), Some(vec![12]));
    assert_eq!(processor(1.1, 1024).penalty_window(3, &tokens), Some(vec![10, 11, 12, 13]));
    assert_eq!(processor(1.1, usize::MAX).penalty_window(3, &tokens), Some(vec![10, 11, 12, 13]));
    assert_eq!(processor(1.1, 3).penalty_window(3, &tokens), Some(vec![10, 11, 12, 13]));
}

#[test]
fn penalty_window_keeps_repeated_tokens() {
    let tokens = vec![5, 5, 6, 5];
    assert_eq!(processor(2.0, 8).penalty_window(3, &tokens), Some(vec![5, 5, 6, 5]));
}

#[test]
fn tokens_outside_the_window_keep_their_logits() {
    // token 1 is repeated in front of the window and behind it
    let tokens = vec![1, 1, 1, 3, 4, 5, 1, 1];
    let p = processor(2.0, 2);
    let window = p.penalty_window(5, &tokens).unwrap();
    assert_eq!(window, vec![3, 4, 5]);
    let logits = Tensor::from_vec(vec![8.0f32, 8.0, -8.0, 8.0, -8.0, 8.0, 8.0], 7, &Device::Cpu)
        .unwrap();
    let penalized = apply_repeat_penalty(&logits, f32::from_bits(p.repeat_penalty), &window)
        .unwrap()
        .to_vec1::<f32>()
        .unwrap();
    assert_eq!(penalized, vec![8.0, 8.0, -8.0, 4.0, -16.0, 4.0, 8.0]);
}

#[test]
fn needs_draw_at_the_end_of_the_buffer() {
    let p = processor(1.0, 2);
    let tokens = vec![1, 2, 3];
    assert!(!p.needs_draw(0, &tokens));
    assert!(!p.needs_draw(1, &tokens));
    assert!(p.needs_draw(2, &tokens));
    assert!(p.needs_draw(3, &tokens));
    assert!(p.needs_draw(usize::MAX, &tokens));
    assert!(p.needs_draw(0, &vec![]));
    assert!(p.needs_draw(0, &vec![9]));
}

#[test]
fn take_next_replays_what_the_buffer_holds() {
    let mut tokens = vec![1, 2, 3, 4];
    assert_eq!(take_next(0, &mut tokens, None), Some(2));
    assert_eq!(take_next(1, &mut tokens, Some(77)), Some(3));
    assert_eq!(take_next(2, &mut tokens, None), Some(4));
    assert_eq!(tokens, vec![1, 2, 3, 4]);
}

#[test]
fn take_next_appends_what_was_drawn() {
    let mut tokens = vec![1, 2];
    assert_eq!(take_next(1, &mut tokens, None), None);
    assert_eq!(tokens, vec![1, 2]);
    assert_eq!(take_next(1, &mut tokens, Some(9)), Some(9));
    assert_eq!(tokens, vec![1, 2, 9]);
    assert_eq!(take_next(2, &mut tokens, Some(u32::MAX)), Some(u32::MAX as usize));
    assert_eq!(tokens, vec![1, 2, 9, u32::MAX as usize]);
}

#[test]
fn teacher_forcing_does_not_sample() {
    // three tokens are in the buffer beyond step 0
    let mut tokens = vec![1, 2, 3, 4];
    let mut p = processor(1.0, 2);
    // the logits favour token 6 throughout
    let logits = logits_with_best(8, 6);
    assert_eq!(p.add_logits(0, &mut tokens, &logits, attenuate).unwrap(), 2);
    assert_eq!(tokens.len(), 4);
    assert_eq!(p.add_logits(1, &mut tokens, &logits, attenuate).unwrap(), 3);
    assert_eq!(tokens.len(), 4);
    assert_eq!(p.add_logits(2, &mut tokens, &logits, attenuate).unwrap(), 4);
    assert_eq!(tokens, vec![1, 2, 3, 4]);
    // only at the end of the buffer a token is drawn, and the buffer grows
    assert_eq!(p.add_logits(3, &mut tokens, &logits, attenuate).unwrap(), 6);
    assert_eq!(tokens, vec![1, 2, 3, 4, 6]);
    assert_eq!(p.add_logits(4, &mut tokens, &logits_with_best(8, 0), attenuate).unwrap(), 0);
    assert_eq!(tokens, vec![1, 2, 3, 4, 6, 0]);
}

#[test]
fn teacher_forcing_leaves_the_random_state() {
    let uniform = Tensor::from_vec(vec![0.0f32; 64], 64, &Device::Cpu).unwrap();
    let mut replayed = LogitsProcessorWrapper::new(
        LogitsProcessor::new(7, Some(1.0), None),
        NO_PENALTY,
        0,
    );
    let mut fresh = LogitsProcessor::new(7, Some(1.0), None);
    let mut tokens = vec![1, 2, 3, 4, 5];
    for i in 0..4 {
        assert_eq!(replayed.add_logits(i, &mut tokens, &uniform, attenuate).unwrap(), i + 2);
    }
    // the draws that follow are those of a sampler that never replayed
    let mut differ = false;
    for i in 4..24 {
        let drawn = replayed.add_logits(i, &mut tokens, &uniform, attenuate).unwrap();
        let expected = fresh.sample(&uniform).unwrap() as usize;
        assert_eq!(drawn, expected);
        assert_eq!(tokens[i + 1], expected);
        differ = differ || drawn != tokens[5];
    }
    assert!(differ);
    assert_eq!(tokens.len(), 25);
}

#[test]
fn a_failed_draw_leaves_the_buffer() {
    let mut tokens = vec![1, 2];
    let mut p = processor(1.0, 2);
    // logits of two axes cannot be sampled from
    let logits = Tensor::from_vec(vec![0.0f32; 4], (2, 2), &Device::Cpu).unwrap();
    match p.add_logits(1, &mut tokens, &logits, attenuate) {
        Err(SamplingError::Shape { dims }) => assert_eq!(dims, vec![2, 2]),
        other => panic!("{:?}", other),
    }
    assert_eq!(tokens, vec![1, 2]);
    // a replay does not look at the logits
    assert_eq!(p.add_logits(0, &mut tokens, &logits, attenuate).unwrap(), 2);
    assert_eq!(tokens, vec![1, 2]);
}

#[test]
fn new_keeps_the_settings() {
    let p = processor(1.1, 1024);
    assert_eq!(p.repeat_penalty, 1.1f32.to_bits());
    assert_eq!(p.repeat_last_n, 1024);
}

#[test]
fn logits_without_an_element_are_refused() {
    let policies: [(Option<f64>, Option<f64>); 3] =
        [(None, None), (Some(1.0), None), (Some(1.0), Some(0.5))];
    for (temperature, top_p) in policies {
        let mut p = LogitsProcessorWrapper::new(
            LogitsProcessor::new(3, temperature, top_p),
            NO_PENALTY,
            0,
        );
        let mut tokens = vec![1];
        let scalar = Tensor::new(0.5f32, &Device::Cpu).unwrap();
        match p.add_logits(0, &mut tokens, &scalar, attenuate) {
            Err(SamplingError::Shape { dims }) => assert!(dims.is_empty()),
            other => panic!("{:?}", other),
        }
        let empty = Tensor::from_vec(Vec::<f32>::new(), 0, &Device::Cpu).unwrap();
        match p.add_logits(0, &mut tokens, &empty, attenuate) {
            Err(SamplingError::Shape { dims }) => assert_eq!(dims, vec![0]),
            other => panic!("{:?}", other),
        }
        let hollow = Tensor::from_vec(Vec::<f32>::new(), (2, 0), &Device::Cpu).unwrap();
        match p.add_logits(0, &mut tokens, &hollow, attenuate) {
            Err(SamplingError::Shape { dims }) => assert_eq!(dims, vec![2, 0]),
            other => panic!("{:?}", other),
        }
        assert_eq!(tokens, vec![1]);
    }
}

#[test]
fn a_drawn_token_is_the_index_of_a_logit() {
    let policies: [(Option<f64>, Option<f64>); 3] =
        [(None, None), (Some(1.0), None), (Some(1.0), Some(0.5))];
    for (temperature, top_p) in policies {
        let mut p = LogitsProcessorWrapper::new(
            LogitsProcessor::new(5, temperature, top_p),
            NO_PENALTY,
            0,
        );
        for len in [1usize, 2, 7] {
            let logits = Tensor::from_vec(vec![0.25f32; len], len, &Device::Cpu).unwrap();
            let mut tokens = vec![0];
            for i in 0..20 {
                let token = p.add_logits(i, &mut tokens, &logits, attenuate).unwrap();
                assert!(token < len);
                assert_eq!(tokens[i + 1], token);
            }
        }
    }
}

#[test]
fn a_sampler_that_fails_leaves_the_buffer() {
    // weights that are no numbers cannot be drawn from
    let mut p = LogitsProcessorWrapper::new(LogitsProcessor::new(5, Some(1.0), None), NO_PENALTY, 0);
    let logits = Tensor::from_vec(vec![f32::NAN; 4], 4, &Device::Cpu).unwrap();
    let mut tokens = vec![3];
    match p.add_logits(0, &mut tokens, &logits, attenuate) {
        Err(SamplingError::Draw { .. }) => {}
        other => panic!("{:?}", other),
    }
    assert_eq!(tokens, vec![3]);
}

#[test]
fn the_penalty_is_applied_over_the_window_before_the_draw() {
    // token 5 is favoured, and lies in the window of the last two tokens
    let mut p = processor(4.0, 1);
    let mut tokens = vec![2, 5];
    let logits = Tensor::from_vec(vec![0.0f32, 1.0, 3.0, 0.0, 0.0, 8.0], 6, &Device::Cpu).unwrap();
    // the window holds 2 and 5: their logits fall to 0.75 and 2, and 5 is drawn
    assert_eq!(p.add_logits(1, &mut tokens, &logits, attenuate).unwrap(), 5);
    // now the window holds 5 twice; with a factor of 16 its logit falls to 0.5
    let mut p = processor(16.0, 1);
    assert_eq!(p.add_logits(2, &mut tokens, &logits, attenuate).unwrap(), 2);
    assert_eq!(tokens, vec![2, 5, 5, 2]);
    // token 2 lies outside the window of the last token alone
    let mut p = processor(16.0, 0);
    let mut tokens = vec![5, 2, 5];
    assert_eq!(p.add_logits(2, &mut tokens, &logits, attenuate).unwrap(), 2);
    // without penalty the function is not called on
    let mut p = processor(1.0, 8);
    let mut tokens = vec![5];
    let refuse = |_: &Tensor, _: u32, _: Vec<u32>| -> candle_core::Result<Tensor> {
        panic!("no penalty to apply")
    };
    assert_eq!(p.add_logits(0, &mut tokens, &logits, refuse).unwrap(), 5);
    // nor on a replay
    let mut p = processor(2.0, 8);
    assert_eq!(p.add_logits(0, &mut tokens, &logits, refuse).unwrap(), 5);
    assert_eq!(tokens, vec![5, 5]);
}

#[test]
fn the_penalty_is_handed_the_factor_and_the_window() {
    let mut p = processor(1.5, 2);
    let mut tokens = vec![7, 8, 9, 10];
    let logits = logits_with_best(12, 3);
    let seen = std::cell::RefCell::new(Vec::new());
    let record = |logits: &Tensor, penalty: u32, window: Vec<u32>| -> candle_core::Result<Tensor> {
        seen.borrow_mut().push((penalty, window));
        Ok(logits.clone())
    };
    assert_eq!(p.add_logits(3, &mut tokens, &logits, &record).unwrap(), 3);
    assert_eq!(*seen.borrow(), vec![(1.5f32.to_bits(), vec![8, 9, 10])]);
}

#[test]
fn a_penalty_that_fails_leaves_the_buffer() {
    let mut p = processor(1.5, 2);
    let mut tokens = vec![7];
    // the penalty of the front end takes a vector only
    let logits = Tensor::from_vec(vec![0.0f32; 4], (2, 2), &Device::Cpu).unwrap();
    match p.add_logits(0, &mut tokens, &logits, attenuate) {
        Err(SamplingError::Penalty { .. }) => {}
        other => panic!("{:?}", other),
    }
    assert_eq!(tokens, vec![7]);
}

#[test]
fn draw_next_draws_from_the_logits_as_they_are() {
    let mut p = processor(3.0, 8);
    let mut tokens = vec![4, 4];
    assert_eq!(p.draw_next(&mut tokens, &logits_with_best(6, 4)).unwrap(), 4);
    assert_eq!(tokens, vec![4, 4, 4]);
    let scalar = Tensor::new(0.5f32, &Device::Cpu).unwrap();
    assert!(matches!(p.draw_next(&mut tokens, &scalar), Err(SamplingError::Shape { .. })));
    assert_eq!(tokens, vec![4, 4, 4]);
}
