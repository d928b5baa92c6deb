//! Process-wide interception state: the protect-list and the per-name
//! access records.

use vstd::prelude::*;
use vstd::string::StringExecFns;

verus! {

/// Upper bound on the number of names the protect-list may hold.
pub const MAX_TOKENS: usize = 100;

/// Outcome of the first interception of one protected name: either the
/// retained secret value, or an explicit marker that the name was never set.
/// A record is created on first interception and never mutated afterwards.
pub struct AccessRecord {
    /// The protected name this record belongs to.
    pub name: String,
    /// `Some(v)` when the name was set and `v` was retained; `None` when the
    /// name was absent from the environment on first interception.
    pub value: Option<String>,
}

/// The view of an optional retained value: the character sequence it holds,
/// if any.
pub open spec fn opt_str_view(o: Option<String>) -> Option<Seq<char>> {
    match o {
        Some(v) => Some(v@),
        None => None,
    }
}

/// The views of a sequence of owned strings.
pub open spec fn views_of(v: Seq<String>) -> Seq<Seq<char>> {
    v.map_values(|s: String| s@)
}

/// The mathematical content of a record list: a map from each recorded name
/// to its recorded outcome (later records overriding earlier ones, though a
/// well-formed state never holds two records for one name).
pub open spec fn cache_map(c: Seq<AccessRecord>) -> Map<Seq<char>, Option<Seq<char>>>
    decreases c.len(),
{
    if c.len() == 0 {
        Map::empty()
    } else {
        cache_map(c.drop_last()).insert(c.last().name@, opt_str_view(c.last().value))
    }
}

/// Whether no two records in the list share a name.
pub open spec fn unique_record_names(c: Seq<AccessRecord>) -> bool {
    forall|i: int, j: int| 0 <= i < j < c.len() ==> c[i].name@ != c[j].name@
}

/// Process-wide interception state: the protect-list, the per-name access
/// records, and the one-way initialization and diagnostics flags.
pub struct TokenState {
    /// Names of the environment variables to protect.
    pub tokens: Vec<String>,
    /// One record per protected name that has been intercepted at least once.
    pub cache: Vec<AccessRecord>,
    /// Whether the protect-list and diagnostics flag have been determined.
    pub initialized: bool,
    /// Whether diagnostic logging is enabled.
    pub debug_enabled: bool,
}

impl TokenState {
    /// Whether `name` is on the protect-list.
    pub open spec fn protects(self, name: Seq<char>) -> bool {
        views_of(self.tokens@).contains(name)
    }

    /// The records as a map from name to recorded outcome.
    pub open spec fn records_map(self) -> Map<Seq<char>, Option<Seq<char>>> {
        cache_map(self.cache@)
    }

    /// Whether `name` already has an access record.
    pub open spec fn recorded(self, name: Seq<char>) -> bool {
        self.records_map().dom().contains(name)
    }

    /// The recorded outcome for `name`: the retained value, or `None` for
    /// the absent marker.
    pub open spec fn recorded_outcome(self, name: Seq<char>) -> Option<Seq<char>> {
        self.records_map()[name]
    }

    /// Structural invariant: the protect-list respects its bound and no name
    /// has more than one access record.
    pub open spec fn wf(self) -> bool {
        &&& self.tokens@.len() <= MAX_TOKENS
        &&& unique_record_names(self.cache@)
    }

    /// A fresh, uninitialized state with no protected names and no records.
    pub fn new() -> (s: Self)
        ensures
            s.tokens@.len() == 0,
            s.cache@.len() == 0,
            !s.initialized,
            !s.debug_enabled,
            s.records_map() == Map::<Seq<char>, Option<Seq<char>>>::empty(),
            s.wf(),
    {
        TokenState { tokens: Vec::new(), cache: Vec::new(), initialized: false, debug_enabled: false }
    }
}

/// Decide whether `name` is on the protect-list of `state`.
pub fn is_sensitive_token(state: &TokenState, name: &str) -> (r: bool)
    ensures
        r == state.protects(name@),
{
    let owned = String::from_str(name);
    let n = state.tokens.len();
    let mut i: usize = 0;
    while i < n
        invariant
            n == state.tokens@.len(),
            i <= n,
            owned@ == name@,
            forall|j: int| 0 <= j < i ==> views_of(state.tokens@)[j] != name@,
        decreases n - i,
    {
        assert(views_of(state.tokens@)[i as int] == state.tokens@[i as int]@);
        if state.tokens[i] == owned {
            return true;
        }
        i += 1;
    }
    false
}

} // verus!
