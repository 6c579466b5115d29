use plonky2_circom_verifier::composer::{noop_padding, step, Action, Event, Stage};

#[test]
fn padding_reaches_one_more_than_half() {
    assert_eq!(noop_padding(0, Some(1)), Some(2));
    assert_eq!(noop_padding(1, Some(1)), Some(1));
    assert_eq!(noop_padding(2, Some(1)), Some(0));
    assert_eq!(noop_padding(100, Some(13)), Some(4096 + 1 - 100));
    assert_eq!(noop_padding(4097, Some(13)), Some(0));
    assert_eq!(noop_padding(5000, Some(13)), Some(0));
    assert_eq!(noop_padding(0, Some(64)), Some((1usize << 63) + 1));
}

#[test]
fn no_padding_is_asked_without_a_size() {
    assert_eq!(noop_padding(0, None), Some(0));
    assert_eq!(noop_padding(123456, None), Some(0));
}

#[test]
fn padding_is_undefined_for_a_size_out_of_reach() {
    assert_eq!(noop_padding(10, Some(0)), None);
    assert_eq!(noop_padding(10, Some(65)), None);
    assert_eq!(noop_padding(10, Some(usize::MAX)), None);
}

#[test]
fn padded_circuit_builds_to_the_size_asked() {
    for bits in 1..20usize {
        for gates in [0usize, 1, (1 << (bits - 1)) - 1, 1 << (bits - 1), (1 << (bits - 1)) + 1] {
            let total = gates + noop_padding(gates, Some(bits)).unwrap();
            assert!(total > 1 << (bits - 1));
            assert!(total <= 1 << bits);
            assert_eq!(total.next_power_of_two(), 1 << bits);
        }
    }
}

#[test]
fn composition_runs_through_its_stages() {
    let bits = Some(12);
    let (s, a) = step(Stage::Assembling, bits, Event::VerifierAdded { num_gates: 1000 });
    assert_eq!((s, a), (Stage::Building, Action::PadAndBuild { noops: 2049 - 1000 }));
    let (s, a) = step(s, bits, Event::Built);
    assert_eq!((s, a), (Stage::Proving, Action::Prove));
    let (s, a) = step(s, bits, Event::Proved);
    assert_eq!((s, a), (Stage::Verifying, Action::Verify));
    let (s, a) = step(s, bits, Event::Accepted);
    assert_eq!((s, a), (Stage::Done, Action::Return));
    assert_eq!(step(s, bits, Event::Accepted), (Stage::Failed, Action::Abort));
}

#[test]
fn composition_without_padding_adds_no_gates() {
    assert_eq!(
        step(Stage::Assembling, None, Event::VerifierAdded { num_gates: 7 }),
        (Stage::Building, Action::PadAndBuild { noops: 0 })
    );
}

#[test]
fn a_rejected_proof_is_never_returned() {
    assert_eq!(step(Stage::Verifying, None, Event::Rejected), (Stage::Failed, Action::Abort));
    assert_eq!(step(Stage::Proving, None, Event::ProvingFailed), (Stage::Failed, Action::Abort));
    assert_eq!(step(Stage::Proving, None, Event::Accepted), (Stage::Failed, Action::Abort));
    assert_eq!(step(Stage::Building, None, Event::Proved), (Stage::Failed, Action::Abort));
    assert_eq!(
        step(Stage::Assembling, Some(0), Event::VerifierAdded { num_gates: 7 }),
        (Stage::Failed, Action::Abort)
    );
    let stages =
        [Stage::Assembling, Stage::Building, Stage::Proving, Stage::Verifying, Stage::Done, Stage::Failed];
    let events = [
        Event::VerifierAdded { num_gates: 3 },
        Event::Built,
        Event::Proved,
        Event::ProvingFailed,
        Event::Accepted,
        Event::Rejected,
    ];
    for s in stages.iter() {
        for e in events.iter() {
            let (next, action) = step(*s, Some(4), *e);
            let returns = *s == Stage::Verifying && *e == Event::Accepted;
            assert_eq!(action == Action::Return, returns);
            assert_eq!(next == Stage::Done, returns);
            assert_eq!(next == Stage::Failed, action == Action::Abort);
        }
    }
}

#[test]
fn failure_is_final() {
    let events = [
        Event::VerifierAdded { num_gates: 3 },
        Event::Built,
        Event::Proved,
        Event::ProvingFailed,
        Event::Accepted,
        Event::Rejected,
    ];
    for e in events.iter() {
        assert_eq!(step(Stage::Failed, None, *e), (Stage::Failed, Action::Abort));
    }
}
