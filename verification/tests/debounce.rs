use uno_systems_lab::debounce::Debouncer;

#[test]
fn transition_accepted_after_required_matching_samples() {
    let mut debouncer = Debouncer::new(3);

    assert_eq!(debouncer.update(true), None);
    assert_eq!(debouncer.update(true), None);
    assert_eq!(debouncer.update(true), Some(true));
    assert_eq!(debouncer.update(true), None);
    assert_eq!(debouncer.update(true), None);
}

#[test]
fn short_glitch_is_ignored() {
    let mut debouncer = Debouncer::new(3);
    debouncer.initialize(false);

    assert_eq!(debouncer.update(true), None);
    assert_eq!(debouncer.update(true), None);
    assert_eq!(debouncer.update(false), None);
    assert_eq!(debouncer.update(true), None);
    assert_eq!(debouncer.update(false), None);
    assert_eq!(debouncer.update(false), None);
    assert_eq!(debouncer.update(false), None);
}

#[test]
fn initial_state_is_not_reported() {
    let mut debouncer = Debouncer::new(2);
    debouncer.initialize(true);

    assert_eq!(debouncer.update(true), None);
    assert_eq!(debouncer.update(false), None);
    assert_eq!(debouncer.update(false), Some(false));
    assert_eq!(debouncer.update(false), None);
}

#[test]
fn without_initialize_an_inactive_input_reports_nothing() {
    let mut debouncer = Debouncer::new(1);

    assert_eq!(debouncer.update(false), None);
    assert_eq!(debouncer.update(true), Some(true));
    assert_eq!(debouncer.update(false), Some(false));
    assert_eq!(debouncer.update(false), None);
}

#[test]
fn each_stable_change_is_reported_once() {
    let mut debouncer = Debouncer::new(2);
    let samples = [true, true, true, false, false, false, true, false, true, true];
    let mut reports = Vec::new();
    for sample in samples {
        if let Some(state) = debouncer.update(sample) {
            reports.push(state);
        }
    }
    assert_eq!(reports, vec![true, false, true]);
}

#[test]
fn requirement_of_255_samples() {
    let mut debouncer = Debouncer::new(255);
    for _ in 0..254 {
        assert_eq!(debouncer.update(true), None);
    }
    assert_eq!(debouncer.update(true), Some(true));
    for _ in 0..300 {
        assert_eq!(debouncer.update(true), None);
    }
}

#[test]
fn reports_alternate_with_gaps_of_the_requirement() {
    let required = 3u8;
    let mut debouncer = Debouncer::new(required);
    let samples = [
        true, false, true, true, true, true, false, false, true, false, false, false, true, true,
        true, false, true, true, false, false, false,
    ];
    let mut last: Option<(usize, bool)> = None;
    let mut first = true;
    for (index, sample) in samples.iter().enumerate() {
        if let Some(state) = debouncer.update(*sample) {
            match last {
                Some((previous_index, previous)) => {
                    assert_eq!(state, !previous);
                    assert!(index - previous_index >= required as usize);
                }
                None => {
                    assert!(first);
                    assert!(state);
                    assert!(index + 1 >= required as usize);
                }
            }
            first = false;
            last = Some((index, state));
        }
    }
    assert!(last.is_some());
}
