use halollm::decoding::{Decoder, StartError};

const EOS: u32 = 2;

/// Scores over a vocabulary of `vocab` entries with `token` strictly highest.
fn peak_at(token: usize, vocab: usize) -> Vec<u32> {
    let mut s = vec![10; vocab];
    s[token] = 50;
    s
}

#[test]
fn new_rejects_empty_prompt() {
    assert_eq!(Decoder::new(vec![], 10, EOS).err(), Some(StartError::EmptyPrompt));
}

#[test]
fn new_rejects_prompt_that_overflows_cursor() {
    assert_eq!(Decoder::new(vec![1, 7], usize::MAX, EOS).err(), Some(StartError::TooLong));
    assert!(Decoder::new(vec![1, 7], usize::MAX - 2, EOS).is_ok());
}

#[test]
fn new_starts_with_prompt_pending() {
    let d = Decoder::new(vec![1, 15043, 3], 100, EOS).unwrap();
    assert_eq!(d.pending(), &[1, 15043, 3]);
    assert_eq!(d.position(), 0);
    assert!(d.generated().is_empty());
    assert_eq!(d.eos(), EOS);
    assert_eq!(d.max_tokens(), 100);
    assert!(!d.is_done());
}

#[test]
fn position_advances_by_consumed_input() {
    let mut d = Decoder::new(vec![1, 4, 4, 9], 10, EOS).unwrap();
    let mut consumed = 0;
    for (i, t) in [5usize, 6, 7, 8].iter().enumerate() {
        let before = d.position();
        consumed += d.pending().len();
        let token = d.step(&peak_at(*t, 12));
        assert_eq!(token as usize, *t);
        assert_eq!(d.position(), consumed);
        assert!(d.position() > before);
        assert_eq!(d.pending(), &[token]);
        assert_eq!(d.generated().len(), i + 1);
    }
    assert_eq!(d.position(), 4 + 3);
}

#[test]
fn budget_bounds_generated_tokens() {
    let mut d = Decoder::new(vec![1], 3, EOS).unwrap();
    let mut calls = 0;
    while !d.is_done() {
        d.step(&peak_at(7, 10));
        calls += 1;
    }
    assert_eq!(calls, 3);
    assert_eq!(d.generated(), &[7, 7, 7]);
    assert_eq!(d.into_generated(), vec![7, 7, 7]);
}

#[test]
fn zero_budget_is_done_at_once() {
    let d = Decoder::new(vec![1], 0, EOS).unwrap();
    assert!(d.is_done());
    assert!(d.into_generated().is_empty());
}

#[test]
fn end_marker_stops_after_one_step() {
    let mut d = Decoder::new(vec![1, 5], 100, EOS).unwrap();
    let token = d.step(&peak_at(EOS as usize, 8));
    assert_eq!(token, EOS);
    assert!(d.is_done());
    assert_eq!(d.generated(), &[EOS]);
    assert_eq!(d.into_generated(), vec![EOS]);
}

#[test]
fn end_marker_tied_with_lower_id_loses() {
    let mut d = Decoder::new(vec![1], 100, EOS).unwrap();
    let mut s = peak_at(EOS as usize, 8);
    s[0] = s[EOS as usize];
    assert_eq!(d.step(&s), 0);
    assert!(!d.is_done());
}

#[test]
fn scripted_model_stops_on_third_step() {
    let mut d = Decoder::new(vec![1, 15043], 100, EOS).unwrap();
    let script = [5usize, 6, EOS as usize];
    let mut calls = 0;
    while !d.is_done() {
        d.step(&peak_at(script[calls], 10));
        calls += 1;
    }
    assert_eq!(calls, 3);
    assert_eq!(d.generated(), &[5, 6, EOS]);
    assert_eq!(d.position(), 2 + 1 + 1);
    assert_eq!(d.into_generated(), vec![5, 6, EOS]);
}
