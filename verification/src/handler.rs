//! The shared interception decision logic: classify one intercepted lookup,
//! and record the first access of a protected name.

use vstd::prelude::*;
use vstd::string::StringExecFns;
use crate::state::AccessRecord;
use crate::state::TokenState;
use crate::state::cache_map;
use crate::state::is_sensitive_token;
use crate::state::opt_str_view;

verus! {

/// The decision for one intercepted lookup, at the specification level.
pub enum Decision {
    /// The name is not protected: delegate unmodified to the underlying
    /// routine, with no state change and no table mutation.
    PassThrough,
    /// The name was intercepted before: return the recorded outcome without
    /// touching the underlying routine or the raw table again.
    Replay(Option<Seq<char>>),
    /// The name is protected and unseen: call the underlying routine once
    /// and record what it reports.
    FirstAccess,
}

/// What one intercepted lookup must do, given the current state: the
/// per-name state machine of the interception handler.
pub open spec fn spec_lookup_decision(state: TokenState, name: Seq<char>) -> Decision {
    if !state.protects(name) {
        Decision::PassThrough
    } else if state.recorded(name) {
        Decision::Replay(state.recorded_outcome(name))
    } else {
        Decision::FirstAccess
    }
}

/// The decision for one intercepted lookup, as handed to the caller. A
/// replayed outcome carries a copy of the retained value, or `None` for a
/// name recorded as absent.
pub enum LookupDecision {
    /// Delegate unmodified to the underlying routine.
    PassThrough,
    /// Return this recorded outcome; do not call the underlying routine.
    Replay(Option<String>),
    /// Call the underlying routine once, then record the result through
    /// `record_first_access`.
    FirstAccess,
}

/// The specification-level decision a `LookupDecision` stands for.
pub open spec fn decision_view(d: LookupDecision) -> Decision {
    match d {
        LookupDecision::PassThrough => Decision::PassThrough,
        LookupDecision::Replay(v) => Decision::Replay(opt_str_view(v)),
        LookupDecision::FirstAccess => Decision::FirstAccess,
    }
}

proof fn lemma_cache_map_skip_suffix(c: Seq<AccessRecord>, k: int, name: Seq<char>)
    requires
        0 <= k <= c.len(),
        forall|j: int| k <= j < c.len() ==> c[j].name@ != name,
    ensures
        cache_map(c).dom().contains(name) == cache_map(c.subrange(0, k)).dom().contains(name),
        cache_map(c).dom().contains(name) ==> cache_map(c)[name] == cache_map(c.subrange(0, k))[name],
    decreases c.len() - k,
{
    if k < c.len() {
        let d = c.drop_last();
        assert(c.last().name@ != name);
        assert(forall|j: int| k <= j < d.len() ==> #[trigger] d[j].name@ != name);
        lemma_cache_map_skip_suffix(d, k, name);
        assert(d.subrange(0, k) =~= c.subrange(0, k));
        assert(cache_map(c) == cache_map(d).insert(c.last().name@, opt_str_view(c.last().value)));
        assert(cache_map(c).dom().contains(name) == cache_map(d).dom().contains(name));
        if cache_map(c).dom().contains(name) {
            assert(cache_map(c)[name] == cache_map(d)[name]);
        }
    } else {
        assert(c.subrange(0, k) =~= c);
    }
}

fn find_recorded_value(cache: &Vec<AccessRecord>, name: &str) -> (r: Option<Option<String>>)
    ensures
        match r {
            Some(v) => cache_map(cache@).dom().contains(name@) && cache_map(cache@)[name@]
                == opt_str_view(v),
            None => !cache_map(cache@).dom().contains(name@),
        },
{
    let owned = String::from_str(name);
    let n = cache.len();
    let mut k: usize = n;
    while k > 0
        invariant
            n == cache@.len(),
            k <= n,
            owned@ == name@,
            forall|j: int| k <= j < n ==> cache@[j].name@ != name@,
        decreases k,
    {
        if cache[k - 1].name == owned {
            let v: Option<String> = match &cache[k - 1].value {
                Some(s) => Some(s.clone()),
                None => None,
            };
            proof {
                let c = cache@;
                let p = c.subrange(0, k as int);
                assert(p.drop_last() =~= c.subrange(0, k as int - 1));
                assert(p.last() == c[k as int - 1]);
                assert(cache_map(p).dom().contains(name@));
                assert(cache_map(p)[name@] == opt_str_view(c[k as int - 1].value));
                lemma_cache_map_skip_suffix(c, k as int, name@);
            }
            return Some(v);
        }
        k -= 1;
    }
    proof {
        lemma_cache_map_skip_suffix(cache@, 0, name@);
        assert(cache@.subrange(0, 0) =~= Seq::<AccessRecord>::empty());
    }
    None
}

/// Classify one intercepted lookup against the current state. The state is
/// only read: pass-through and replay never mutate anything.
pub fn classify_lookup(state: &TokenState, name: &str) -> (d: LookupDecision)
    requires
        state.wf(),
        state.initialized,
    ensures
        decision_view(d) == spec_lookup_decision(*state, name@),
{
    if !is_sensitive_token(state, name) {
        return LookupDecision::PassThrough;
    }
    match find_recorded_value(&state.cache, name) {
        Some(v) => LookupDecision::Replay(v),
        None => LookupDecision::FirstAccess,
    }
}

/// How the caller must complete a first access.
pub enum CaptureOutcome {
    /// The underlying routine reported absence: absence was recorded; the
    /// caller returns absence and touches nothing else.
    Absent,
    /// The value was retained: the caller returns this copy and must remove
    /// the name from the raw environment table before its call returns.
    Captured(String),
}

proof fn lemma_cache_map_covers(c: Seq<AccessRecord>, i: int)
    requires
        0 <= i < c.len(),
    ensures
        cache_map(c).dom().contains(c[i].name@),
    decreases c.len(),
{
    if i < c.len() - 1 {
        let d = c.drop_last();
        lemma_cache_map_covers(d, i);
        assert(d[i] == c[i]);
    }
}

/// Record the outcome the underlying routine reported for the first access
/// of a protected, unseen name. Exactly one record is created; every other
/// name's record is untouched.
pub fn record_first_access(state: &mut TokenState, name: &str, real_value: Option<String>) -> (outcome: CaptureOutcome)
    requires
        old(state).wf(),
        old(state).initialized,
        old(state).protects(name@),
        !old(state).recorded(name@),
    ensures
        final(state).wf(),
        final(state).initialized,
        final(state).tokens == old(state).tokens,
        final(state).debug_enabled == old(state).debug_enabled,
        final(state).cache@.len() == old(state).cache@.len() + 1,
        final(state).records_map() == old(state).records_map().insert(
            name@,
            opt_str_view(real_value),
        ),
        final(state).recorded(name@),
        final(state).recorded_outcome(name@) == opt_str_view(real_value),
        match outcome {
            CaptureOutcome::Absent => real_value is None,
            CaptureOutcome::Captured(v) => opt_str_view(real_value) == Some(v@),
        },
{
    let stored: Option<String> = match &real_value {
        Some(s) => Some(s.clone()),
        None => None,
    };
    let rec = AccessRecord { name: String::from_str(name), value: stored };
    proof {
        let c = old(state).cache@;
        assert forall|j: int| 0 <= j < c.len() implies c[j].name@ != name@ by {
            if c[j].name@ == name@ {
                lemma_cache_map_covers(c, j);
            }
        }
    }
    state.cache.push(rec);
    proof {
        assert(state.cache@.drop_last() =~= old(state).cache@);
    }
    match real_value {
        Some(v) => CaptureOutcome::Captured(v),
        None => CaptureOutcome::Absent,
    }
}

/// Law: a name outside the protect-list is always passed through unchanged,
/// however often it is looked up — the decision depends only on the state,
/// which pass-through never alters.
pub proof fn lemma_unprotected_always_pass_through(state: TokenState, name: Seq<char>)
    requires
        !state.protects(name),
    ensures
        spec_lookup_decision(state, name) == Decision::PassThrough,
{
}

/// Law: a protected name that already has a record replays exactly the
/// recorded outcome, asking for no underlying call and no table mutation.
pub proof fn lemma_recorded_lookup_replays(state: TokenState, name: Seq<char>)
    requires
        state.protects(name),
        state.recorded(name),
    ensures
        spec_lookup_decision(state, name) == Decision::Replay(state.recorded_outcome(name)),
{
}

/// Law: once the first access of a protected name is recorded with outcome
/// `v`, every later lookup of that name in the resulting state replays
/// exactly `v`: a process may keep reading its own secret while the raw
/// table no longer holds it.
pub proof fn lemma_capture_then_replay(
    pre: TokenState,
    post: TokenState,
    name: Seq<char>,
    v: Option<Seq<char>>,
)
    requires
        post.protects(name),
        post.records_map() == pre.records_map().insert(name, v),
    ensures
        spec_lookup_decision(post, name) == Decision::Replay(v),
{
}

} // verus!
