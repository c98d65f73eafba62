//! Digital-input debouncing.

use vstd::prelude::*;

verus! {

/// What a [`Debouncer`] remembers between samples.
pub struct DebounceModel {
    /// The most recent raw sample.
    pub last_raw: bool,
    /// The accepted stable state.
    pub stable: bool,
    /// How many consecutive samples, ending with the latest, equal `last_raw`,
    /// counted up to `required_samples` at most.
    pub matching_samples: nat,
    /// How many consecutive equal samples make a new state stable.
    pub required_samples: nat,
}

impl DebounceModel {
    /// The bounds that every debouncer keeps: at least one sample is required,
    /// and the run counter never passes the requirement.
    pub open spec fn valid(self) -> bool {
        &&& 0 < self.required_samples <= 255
        &&& self.matching_samples <= self.required_samples
    }
}

/// The state after one raw sample, and the transition reported for it.
///
/// A sample that differs from the previous one starts a new run of one;
/// an equal sample extends the run until it reaches the requirement. Once the
/// run has reached the requirement, a sample that differs from the stable
/// state becomes the new stable state and is reported, once.
pub open spec fn debounce_step(s: DebounceModel, raw: bool) -> (DebounceModel, Option<bool>) {
    let count: nat = if raw != s.last_raw {
        1
    } else if s.matching_samples < s.required_samples {
        s.matching_samples + 1
    } else {
        s.matching_samples
    };
    let changes = count >= s.required_samples && raw != s.stable;
    let next = DebounceModel {
        last_raw: raw,
        stable: if changes { raw } else { s.stable },
        matching_samples: count,
        required_samples: s.required_samples,
    };
    (next, if changes { Some(raw) } else { None })
}

/// The state after the samples, fed in order.
pub open spec fn debounce_run(s: DebounceModel, samples: Seq<bool>) -> DebounceModel
    decreases samples.len(),
{
    if samples.len() == 0 {
        s
    } else {
        debounce_step(debounce_run(s, samples.drop_last()), samples.last()).0
    }
}

/// `count` equal raw samples `raw`.
pub open spec fn repeated(raw: bool, count: nat) -> Seq<bool> {
    Seq::new(count, |i: int| raw)
}

/// One sample reports a transition exactly when it changes the stable state;
/// the transition names the new stable state, which is the sample itself, and
/// once it has been reported the same sample again reports nothing.
pub proof fn lemma_transition_reported_once(s: DebounceModel, raw: bool)
    requires
        s.valid(),
    ensures
        debounce_step(s, raw).0.valid(),
        debounce_step(s, raw).0.required_samples == s.required_samples,
        debounce_step(s, raw).1 is Some <==> debounce_step(s, raw).0.stable != s.stable,
        debounce_step(s, raw).1 matches Some(x) ==> x == raw && debounce_step(s, raw).0.stable
            == raw,
        debounce_step(s, raw).1 is Some ==> debounce_step(debounce_step(s, raw).0, raw).1 is None,
{
}

/// A freshly initialized input is not reported as a transition: sampling the
/// state it was initialized with reports nothing.
pub proof fn lemma_initialized_state_not_reported(required_samples: nat, pressed: bool)
    requires
        0 < required_samples <= 255,
    ensures
        ({
            let s = DebounceModel {
                last_raw: pressed,
                stable: pressed,
                matching_samples: required_samples,
                required_samples,
            };
            debounce_step(s, pressed).1 is None && debounce_step(s, pressed).0 == s
        }),
{
}

/// Feeding one raw value `k` times: the run counter grows by `k` up to the
/// requirement, and the stable state becomes that value exactly when the
/// run reaches the requirement.
pub proof fn lemma_repeated_samples(s: DebounceModel, raw: bool, k: nat)
    requires
        s.valid(),
    ensures
        ({
            let t = debounce_run(s, repeated(raw, k));
            let base: nat = if s.last_raw == raw {
                s.matching_samples
            } else {
                0
            };
            &&& t.valid()
            &&& t.required_samples == s.required_samples
            &&& k > 0 ==> t.last_raw == raw
            &&& k > 0 ==> t.matching_samples == if base + k < s.required_samples {
                base + k
            } else {
                s.required_samples
            }
            &&& base + k < s.required_samples ==> t.stable == s.stable
            &&& k > 0 && base + k >= s.required_samples ==> t.stable == raw
        }),
    decreases k,
{
    if k > 0 {
        let prev = (k - 1) as nat;
        lemma_repeated_samples(s, raw, prev);
        assert(repeated(raw, k).drop_last() =~= repeated(raw, prev));
        assert(repeated(raw, k).last() == raw);
    }
}

/// A value held for the required number of consecutive samples becomes the
/// stable state, whatever came before.
pub proof fn lemma_stable_after_required_samples(s: DebounceModel, raw: bool)
    requires
        s.valid(),
    ensures
        debounce_run(s, repeated(raw, s.required_samples)).stable == raw,
{
    lemma_repeated_samples(s, raw, s.required_samples);
}

/// A new raw value held for fewer samples than required is a glitch: the
/// stable state is kept and no sample along the way reports a transition.
pub proof fn lemma_short_glitch_ignored(s: DebounceModel, raw: bool, k: nat)
    requires
        s.valid(),
        s.last_raw != raw,
        k < s.required_samples,
    ensures
        debounce_run(s, repeated(raw, k)).stable == s.stable,
        forall|j: nat|
            j < k ==> (#[trigger] debounce_step(debounce_run(s, repeated(raw, j)), raw)).1 is None,
{
    lemma_repeated_samples(s, raw, k);
    assert forall|j: nat| j < k implies (#[trigger] debounce_step(
        debounce_run(s, repeated(raw, j)),
        raw,
    )).1 is None by {
        lemma_repeated_samples(s, raw, j);
        lemma_repeated_samples(s, raw, j + 1);
        assert(repeated(raw, j + 1).drop_last() =~= repeated(raw, j));
        lemma_transition_reported_once(debounce_run(s, repeated(raw, j)), raw);
    }
}

/// The transition reported for each sample of `samples`, fed in order from `s`.
pub open spec fn debounce_outputs(s: DebounceModel, samples: Seq<bool>) -> Seq<Option<bool>> {
    Seq::new(
        samples.len(),
        |k: int| debounce_step(debounce_run(s, samples.take(k)), samples[k]).1,
    )
}

/// Feeding one more sample takes one more step.
proof fn lemma_run_extends(s: DebounceModel, samples: Seq<bool>, k: int)
    requires
        0 <= k < samples.len(),
    ensures
        debounce_run(s, samples.take(k + 1)) == debounce_step(
            debounce_run(s, samples.take(k)),
            samples[k],
        ).0,
{
    assert(samples.take(k + 1).drop_last() =~= samples.take(k));
    assert(samples.take(k + 1).last() == samples[k]);
}

/// Every state a valid debouncer reaches is valid and keeps its requirement.
proof fn lemma_run_valid(s: DebounceModel, samples: Seq<bool>)
    requires
        s.valid(),
    ensures
        debounce_run(s, samples).valid(),
        debounce_run(s, samples).required_samples == s.required_samples,
    decreases samples.len(),
{
    if samples.len() > 0 {
        lemma_run_valid(s, samples.drop_last());
        lemma_transition_reported_once(debounce_run(s, samples.drop_last()), samples.last());
    }
}

/// Over samples `start..m` that report nothing the stable state holds, and a
/// run of a raw value other than the stable one, begun inside the span,
/// counts no more samples than the span has.
proof fn lemma_quiet_span(s: DebounceModel, samples: Seq<bool>, start: int, m: int)
    requires
        s.valid(),
        0 <= start <= m <= samples.len(),
        forall|k: int| start <= k < m ==> (#[trigger] debounce_outputs(s, samples)[k]) is None,
    ensures
        ({
            let first = debounce_run(s, samples.take(start));
            let last = debounce_run(s, samples.take(m));
            &&& last.valid()
            &&& last.required_samples == s.required_samples
            &&& last.stable == first.stable
            &&& first.last_raw == first.stable && last.last_raw != first.stable
                ==> last.matching_samples <= m - start
        }),
    decreases m - start,
{
    lemma_run_valid(s, samples.take(m));
    if m > start {
        lemma_quiet_span(s, samples, start, m - 1);
        lemma_run_extends(s, samples, m - 1);
        assert(debounce_outputs(s, samples)[m - 1] is None);
        lemma_transition_reported_once(debounce_run(s, samples.take(m - 1)), samples[m - 1]);
    }
}

/// The first transition reported from `s` is a change away from its stable
/// state; when the last raw sample agrees with the stable state, as it does
/// for a new or freshly initialized debouncer, that first report comes no
/// earlier than the required number of samples.
pub proof fn lemma_first_report(s: DebounceModel, samples: Seq<bool>, j: int)
    requires
        s.valid(),
        0 <= j < samples.len(),
        debounce_outputs(s, samples)[j] is Some,
        forall|k: int| 0 <= k < j ==> (#[trigger] debounce_outputs(s, samples)[k]) is None,
    ensures
        debounce_outputs(s, samples)[j] == Some(!s.stable),
        s.last_raw == s.stable ==> j + 1 >= s.required_samples,
{
    assert(samples.take(0) =~= Seq::<bool>::empty());
    lemma_quiet_span(s, samples, 0, j);
}

/// Reports alternate: the transition reported after `Some(v)`, with nothing
/// reported in between, is `Some(!v)`, and at least the required number of
/// samples separate the two, so at least that number less one report
/// nothing in between.
pub proof fn lemma_reports_alternate(s: DebounceModel, samples: Seq<bool>, i: int, j: int)
    requires
        s.valid(),
        0 <= i < j < samples.len(),
        debounce_outputs(s, samples)[i] is Some,
        debounce_outputs(s, samples)[j] is Some,
        forall|k: int| i < k < j ==> (#[trigger] debounce_outputs(s, samples)[k]) is None,
    ensures
        debounce_outputs(s, samples)[j] == Some(!debounce_outputs(s, samples)[i].unwrap()),
        j - i >= s.required_samples,
{
    lemma_run_valid(s, samples.take(i));
    lemma_run_extends(s, samples, i);
    lemma_quiet_span(s, samples, i + 1, j);
}

/// Tracks a noisy binary input until its value remains stable.
///
/// A transition is accepted after the same raw value has been observed for the
/// configured number of consecutive samples.
pub struct Debouncer {
    last_raw: bool,
    stable: bool,
    matching_samples: u8,
    required_samples: u8,
}

impl View for Debouncer {
    type V = DebounceModel;

    closed spec fn view(&self) -> DebounceModel {
        DebounceModel {
            last_raw: self.last_raw,
            stable: self.stable,
            matching_samples: self.matching_samples as nat,
            required_samples: self.required_samples as nat,
        }
    }
}

impl Debouncer {
    /// Creates a debouncer requiring `required_samples` consecutive matches.
    ///
    /// The debouncer starts with an inactive raw sample and stable state and
    /// an empty run. `required_samples` must not be zero.
    pub fn new(required_samples: u8) -> (debouncer: Self)
        requires
            required_samples > 0,
        ensures
            debouncer@ == (DebounceModel {
                last_raw: false,
                stable: false,
                matching_samples: 0,
                required_samples: required_samples as nat,
            }),
            debouncer@.valid(),
    {
        Self { last_raw: false, stable: false, matching_samples: 0, required_samples }
    }

    /// Initializes the debouncer with the input's current state.
    ///
    /// Call this before processing samples so the initial state is not
    /// reported as a transition: the state becomes stable at once.
    pub fn initialize(&mut self, pressed: bool)
        requires
            old(self)@.valid(),
        ensures
            final(self)@ == (DebounceModel {
                last_raw: pressed,
                stable: pressed,
                matching_samples: old(self)@.required_samples,
                required_samples: old(self)@.required_samples,
            }),
            final(self)@.valid(),
    {
        self.last_raw = pressed;
        self.stable = pressed;
        self.matching_samples = self.required_samples;
    }

    /// Processes one raw sample.
    ///
    /// Returns `Some(state)` once when a new state becomes stable, or `None`
    /// when no stable transition has occurred.
    pub fn update(&mut self, raw_active: bool) -> (transition: Option<bool>)
        requires
            old(self)@.valid(),
        ensures
            (final(self)@, transition) == debounce_step(old(self)@, raw_active),
            final(self)@.valid(),
    {
        let last_raw = self.last_raw;
        let mut count = self.matching_samples;
        if raw_active != last_raw {
            self.last_raw = raw_active;
            count = 1;
            self.matching_samples = count;
        } else if count < self.required_samples {
            count += 1;
            self.matching_samples = count;
        }
        if count >= self.required_samples {
            let stable = self.stable;
            if raw_active != stable {
                self.stable = raw_active;
                return Some(raw_active);
            }
        }
        None
    }
}

} // verus!
