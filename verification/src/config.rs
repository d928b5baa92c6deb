//! Construction of the protect-list from the operator-supplied configuration
//! value, the built-in default list, and the diagnostics flag.

use vstd::prelude::*;
use vstd::string::StrSliceExecFns;
use vstd::string::StringExecFns;
use crate::state::MAX_TOKENS;
use crate::state::TokenState;
use crate::state::views_of;

verus! {

// ------------------------------------------------------------------
// Whitespace trimming
// ------------------------------------------------------------------

/// The whitespace characters stripped from the ends of a configured name:
/// the ASCII whitespace set.
pub open spec fn is_space_char(c: char) -> bool {
    c == ' ' || c == '\t' || c == '\n' || c == '\r' || c == '\u{b}' || c == '\u{c}'
}

/// `s` with its leading whitespace removed.
pub open spec fn trim_front(s: Seq<char>) -> Seq<char>
    decreases s.len(),
{
    if s.len() > 0 && is_space_char(s[0]) {
        trim_front(s.drop_first())
    } else {
        s
    }
}

/// `s` with its trailing whitespace removed.
pub open spec fn trim_back(s: Seq<char>) -> Seq<char>
    decreases s.len(),
{
    if s.len() > 0 && is_space_char(s[s.len() - 1]) {
        trim_back(s.drop_last())
    } else {
        s
    }
}

/// `s` with whitespace removed from both ends.
pub open spec fn trimmed(s: Seq<char>) -> Seq<char> {
    trim_back(trim_front(s))
}

fn is_space(c: char) -> (r: bool)
    ensures
        r == is_space_char(c),
{
    c == ' ' || c == '\t' || c == '\n' || c == '\r' || c == '\u{b}' || c == '\u{c}'
}

proof fn lemma_trim_front_range(s: Seq<char>, a: int)
    requires
        0 <= a <= s.len(),
        forall|j: int| 0 <= j < a ==> is_space_char(s[j]),
        a < s.len() ==> !is_space_char(s[a]),
    ensures
        trim_front(s) == s.subrange(a, s.len() as int),
    decreases a,
{
    if a == 0 {
        assert(s.subrange(0, s.len() as int) =~= s);
    } else {
        let t = s.drop_first();
        assert(forall|j: int| 0 <= j < a - 1 ==> is_space_char(#[trigger] t[j]));
        lemma_trim_front_range(t, a - 1);
        assert(t.subrange(a - 1, t.len() as int) =~= s.subrange(a, s.len() as int));
    }
}

proof fn lemma_trim_back_range(s: Seq<char>, b: int)
    requires
        0 <= b <= s.len(),
        forall|j: int| b <= j < s.len() ==> is_space_char(s[j]),
        b > 0 ==> !is_space_char(s[b - 1]),
    ensures
        trim_back(s) == s.subrange(0, b),
    decreases s.len() - b,
{
    if b == s.len() {
        assert(s.subrange(0, s.len() as int) =~= s);
    } else {
        let t = s.drop_last();
        assert(is_space_char(s[s.len() - 1]));
        assert(forall|j: int| b <= j < t.len() ==> is_space_char(#[trigger] t[j]));
        lemma_trim_back_range(t, b);
        assert(t.subrange(0, b) =~= s.subrange(0, b));
    }
}

/// Strip leading and trailing whitespace from `s`.
pub fn trim_str<'a>(s: &'a str) -> (r: &'a str)
    ensures
        r@ == trimmed(s@),
{
    let n = s.unicode_len();
    let mut a: usize = 0;
    while a < n && is_space(s.get_char(a))
        invariant
            n == s@.len(),
            a <= n,
            forall|j: int| 0 <= j < a ==> is_space_char(s@[j]),
        decreases n - a,
    {
        a += 1;
    }
    proof {
        lemma_trim_front_range(s@, a as int);
    }
    if a == n {
        proof {
            assert(s@.subrange(a as int, n as int) =~= Seq::<char>::empty());
        }
        return s.substring_char(n, n);
    }
    let mut b: usize = n;
    while is_space(s.get_char(b - 1))
        invariant
            n == s@.len(),
            a < n,
            !is_space_char(s@[a as int]),
            a + 1 <= b <= n,
            forall|j: int| b <= j < n ==> is_space_char(s@[j]),
        decreases b,
    {
        b -= 1;
    }
    proof {
        let t = s@.subrange(a as int, n as int);
        assert(forall|j: int| b - a <= j < t.len() ==> is_space_char(#[trigger] t[j]));
        assert(!is_space_char(t[b - a - 1]));
        lemma_trim_back_range(t, b - a);
        assert(t.subrange(0, b - a) =~= s@.subrange(a as int, b as int));
    }
    s.substring_char(a, b)
}

// ------------------------------------------------------------------
// Comma splitting
// ------------------------------------------------------------------

/// The position of the first comma at or after `i`, or the length of `s`
/// when no comma follows.
pub open spec fn seg_end(s: Seq<char>, i: int) -> int
    recommends
        0 <= i <= s.len(),
    decreases s.len() - i,
{
    if i < 0 || i >= s.len() {
        s.len() as int
    } else if s[i] == ',' {
        i
    } else {
        seg_end(s, i + 1)
    }
}

proof fn lemma_seg_end(s: Seq<char>, i: int)
    requires
        0 <= i <= s.len(),
    ensures
        i <= seg_end(s, i) <= s.len(),
        seg_end(s, i) < s.len() ==> s[seg_end(s, i)] == ',',
    decreases s.len() - i,
{
    if i < s.len() && s[i] != ',' {
        lemma_seg_end(s, i + 1);
    }
}

proof fn lemma_seg_end_at(s: Seq<char>, i: int, j: int)
    requires
        0 <= i <= j <= s.len(),
        forall|k: int| i <= k < j ==> s[k] != ',',
        j < s.len() ==> s[j] == ',',
    ensures
        seg_end(s, i) == j,
    decreases j - i,
{
    if i < j {
        lemma_seg_end_at(s, i + 1, j);
    }
}

/// The comma-separated segments of `s` from position `i` on, commas
/// excluded, empty segments kept.
pub open spec fn split_commas_from(s: Seq<char>, i: int) -> Seq<Seq<char>>
    decreases s.len() - i,
    when 0 <= i <= s.len()
    via split_commas_from_dec
{
    let j = seg_end(s, i);
    if j >= s.len() {
        seq![s.subrange(i, s.len() as int)]
    } else {
        seq![s.subrange(i, j)] + split_commas_from(s, j + 1)
    }
}

#[via_fn]
proof fn split_commas_from_dec(s: Seq<char>, i: int) {
    lemma_seg_end(s, i);
}

/// The comma-separated segments of `s`.
pub open spec fn split_commas(s: Seq<char>) -> Seq<Seq<char>> {
    split_commas_from(s, 0)
}

// ------------------------------------------------------------------
// Token acceptance: trim, drop empties, deduplicate, bound
// ------------------------------------------------------------------

/// One step of protect-list construction: the trimmed segment is appended
/// unless it is empty, already accepted, or the bound is reached.
pub open spec fn accept_token(acc: Seq<Seq<char>>, seg: Seq<char>) -> Seq<Seq<char>> {
    let t = trimmed(seg);
    if t.len() == 0 || acc.contains(t) || acc.len() >= MAX_TOKENS as nat {
        acc
    } else {
        acc.push(t)
    }
}

/// Fold `accept_token` over `segs`, starting from `acc`.
pub open spec fn accept_tokens_from(acc: Seq<Seq<char>>, segs: Seq<Seq<char>>) -> Seq<Seq<char>>
    decreases segs.len(),
{
    if segs.len() == 0 {
        acc
    } else {
        accept_tokens_from(accept_token(acc, segs[0]), segs.drop_first())
    }
}

/// The protect-list a configuration value parses to: its comma-separated
/// segments, trimmed, with empty segments dropped, duplicates dropped, and
/// at most `MAX_TOKENS` names kept.
pub open spec fn parsed_tokens(s: Seq<char>) -> Seq<Seq<char>> {
    accept_tokens_from(Seq::empty(), split_commas(s))
}

proof fn lemma_accept_tokens_from_unique(acc: Seq<Seq<char>>, segs: Seq<Seq<char>>)
    requires
        forall|i: int, j: int| 0 <= i < j < acc.len() ==> acc[i] != acc[j],
        acc.len() <= MAX_TOKENS,
    ensures
        forall|i: int, j: int|
            0 <= i < j < accept_tokens_from(acc, segs).len() ==> accept_tokens_from(acc, segs)[i]
                != accept_tokens_from(acc, segs)[j],
        accept_tokens_from(acc, segs).len() <= MAX_TOKENS,
    decreases segs.len(),
{
    if segs.len() > 0 {
        let next = accept_token(acc, segs[0]);
        let t = trimmed(segs[0]);
        if !(t.len() == 0 || acc.contains(t) || acc.len() >= MAX_TOKENS as nat) {
            assert(forall|i: int| 0 <= i < acc.len() ==> acc[i] != t);
            assert(forall|i: int, j: int| 0 <= i < j < next.len() ==> next[i] != next[j]);
        }
        lemma_accept_tokens_from_unique(next, segs.drop_first());
    }
}

/// Law: whatever the configuration value, the protect-list it parses to
/// holds no duplicate name and never exceeds the bound.
pub proof fn lemma_parsed_tokens_unique_and_bounded(s: Seq<char>)
    ensures
        forall|i: int, j: int|
            0 <= i < j < parsed_tokens(s).len() ==> parsed_tokens(s)[i] != parsed_tokens(s)[j],
        parsed_tokens(s).len() <= MAX_TOKENS,
{
    lemma_accept_tokens_from_unique(Seq::empty(), split_commas(s));
}

fn vec_contains_string(v: &Vec<String>, t: &String) -> (r: bool)
    ensures
        r == views_of(v@).contains(t@),
{
    let n = v.len();
    let mut i: usize = 0;
    while i < n
        invariant
            n == v@.len(),
            i <= n,
            forall|j: int| 0 <= j < i ==> views_of(v@)[j] != t@,
        decreases n - i,
    {
        assert(views_of(v@)[i as int] == v@[i as int]@);
        if v[i] == *t {
            assert(views_of(v@).contains(t@));
            return true;
        }
        i += 1;
    }
    false
}

/// Parse a comma-separated configuration value into the protect-list it
/// denotes.
pub fn parse_token_list(config: &str) -> (tokens: Vec<String>)
    ensures
        views_of(tokens@) == parsed_tokens(config@),
        tokens@.len() <= MAX_TOKENS,
{
    let n = config.unicode_len();
    let mut tokens: Vec<String> = Vec::new();
    let mut i: usize = 0;
    proof {
        assert(views_of(tokens@) =~= Seq::<Seq<char>>::empty());
    }
    loop
        invariant_except_break
            n == config@.len(),
            i <= n,
            tokens@.len() <= MAX_TOKENS,
            parsed_tokens(config@) == accept_tokens_from(
                views_of(tokens@),
                split_commas_from(config@, i as int),
            ),
        ensures
            views_of(tokens@) == parsed_tokens(config@),
            tokens@.len() <= MAX_TOKENS,
        decreases n - i + 1,
    {
        let mut j: usize = i;
        while j < n && config.get_char(j) != ','
            invariant
                n == config@.len(),
                i <= j <= n,
                forall|k: int| i <= k < j ==> config@[k] != ',',
            decreases n - j,
        {
            j += 1;
        }
        proof {
            lemma_seg_end_at(config@, i as int, j as int);
        }
        let seg = config.substring_char(i, j);
        let t = trim_str(seg);
        let ghost pre_views = views_of(tokens@);
        if t.unicode_len() > 0 && tokens.len() < MAX_TOKENS {
            let owned = String::from_str(t);
            if !vec_contains_string(&tokens, &owned) {
                tokens.push(owned);
                proof {
                    assert(views_of(tokens@) =~= pre_views.push(t@));
                }
            }
        }
        proof {
            assert(views_of(tokens@) == accept_token(pre_views, config@.subrange(i as int, j as int)));
        }
        if j < n {
            proof {
                let segs = split_commas_from(config@, i as int);
                let rest = split_commas_from(config@, j as int + 1);
                assert(segs == seq![config@.subrange(i as int, j as int)] + rest);
                assert(segs[0] == config@.subrange(i as int, j as int));
                assert(segs.drop_first() =~= rest);
            }
            i = j + 1;
        } else {
            proof {
                let segs = split_commas_from(config@, i as int);
                assert(segs == seq![config@.subrange(i as int, n as int)]);
                assert(segs[0] == config@.subrange(i as int, j as int));
                assert(segs.drop_first() =~= Seq::<Seq<char>>::empty());
                assert(accept_tokens_from(views_of(tokens@), segs.drop_first()) == views_of(tokens@));
            }
            break;
        }
    }
    tokens
}

// ------------------------------------------------------------------
// Built-in default protect-list
// ------------------------------------------------------------------

/// The built-in default protect-list of well-known secret variable names.
pub open spec fn default_token_list() -> Seq<Seq<char>> {
    seq![
        "COPILOT_GITHUB_TOKEN"@,
        "GITHUB_TOKEN"@,
        "GH_TOKEN"@,
        "GITHUB_API_TOKEN"@,
        "GITHUB_PAT"@,
        "GH_ACCESS_TOKEN"@,
        "OPENAI_API_KEY"@,
        "OPENAI_KEY"@,
        "ANTHROPIC_API_KEY"@,
        "CLAUDE_API_KEY"@,
        "CODEX_API_KEY"@,
    ]
}

/// Build the built-in default protect-list.
pub fn default_sensitive_tokens() -> (r: Vec<String>)
    ensures
        views_of(r@) == default_token_list(),
        r@.len() == 11,
{
    let mut r: Vec<String> = Vec::new();
    r.push(String::from_str("COPILOT_GITHUB_TOKEN"));
    r.push(String::from_str("GITHUB_TOKEN"));
    r.push(String::from_str("GH_TOKEN"));
    r.push(String::from_str("GITHUB_API_TOKEN"));
    r.push(String::from_str("GITHUB_PAT"));
    r.push(String::from_str("GH_ACCESS_TOKEN"));
    r.push(String::from_str("OPENAI_API_KEY"));
    r.push(String::from_str("OPENAI_KEY"));
    r.push(String::from_str("ANTHROPIC_API_KEY"));
    r.push(String::from_str("CLAUDE_API_KEY"));
    r.push(String::from_str("CODEX_API_KEY"));
    proof {
        assert(views_of(r@) =~= default_token_list());
    }
    r
}

// ------------------------------------------------------------------
// Diagnostics flag
// ------------------------------------------------------------------

/// The view of an optional borrowed string value.
pub open spec fn opt_view(o: Option<&str>) -> Option<Seq<char>> {
    match o {
        Some(s) => Some(s@),
        None => None,
    }
}

/// The literal values that enable diagnostics: `"1"`, or `"true"` in any
/// ASCII casing.
pub open spec fn is_enabling_literal(s: Seq<char>) -> bool {
    ||| s.len() == 1 && s[0] == '1'
    ||| (s.len() == 4 && (s[0] == 't' || s[0] == 'T') && (s[1] == 'r' || s[1] == 'R') && (s[2]
        == 'u' || s[2] == 'U') && (s[3] == 'e' || s[3] == 'E'))
}

/// Whether an optional flag value enables diagnostics: absent or any other
/// value leaves them disabled.
pub open spec fn spec_debug_enabled(flag: Option<Seq<char>>) -> bool {
    match flag {
        Some(s) => is_enabling_literal(s),
        None => false,
    }
}

/// Decide from the raw flag value whether diagnostic logging is enabled.
/// The caller must read that value through the unintercepted path.
pub fn is_debug_enabled(flag: Option<&str>) -> (r: bool)
    ensures
        r == spec_debug_enabled(opt_view(flag)),
{
    match flag {
        None => false,
        Some(s) => {
            let n = s.unicode_len();
            if n == 1 {
                s.get_char(0) == '1'
            } else if n == 4 {
                let c0 = s.get_char(0);
                let c1 = s.get_char(1);
                let c2 = s.get_char(2);
                let c3 = s.get_char(3);
                (c0 == 't' || c0 == 'T') && (c1 == 'r' || c1 == 'R') && (c2 == 'u' || c2 == 'U')
                    && (c3 == 'e' || c3 == 'E')
            } else {
                false
            }
        },
    }
}

// ------------------------------------------------------------------
// One-time initialization
// ------------------------------------------------------------------

/// Which source the protect-list was taken from during initialization.
#[derive(Clone, Copy, PartialEq, Eq, Structural, Debug)]
pub enum InitSource {
    /// The configuration value parsed to at least one usable name.
    CustomList,
    /// A configuration value was present but parsed to zero usable names;
    /// the built-in defaults were used instead. A fallback warning is owed
    /// when diagnostics are enabled.
    FallbackEmptyParse,
    /// No configuration value was present; the built-in defaults were used.
    BuiltinDefaults,
}

/// The protect-list that an optional configuration value determines.
pub open spec fn spec_effective_tokens(config: Option<Seq<char>>) -> Seq<Seq<char>> {
    match config {
        Some(c) => if parsed_tokens(c).len() > 0 {
            parsed_tokens(c)
        } else {
            default_token_list()
        },
        None => default_token_list(),
    }
}

/// Law: whatever the configuration value, the effective protect-list is
/// never empty — a configuration that parses to zero usable names falls
/// back to the built-in defaults, so protection stays active.
pub proof fn lemma_effective_tokens_nonempty(config: Option<Seq<char>>)
    ensures
        spec_effective_tokens(config).len() > 0,
{
}

/// The initialization source that an optional configuration value determines.
pub open spec fn spec_init_source(config: Option<Seq<char>>) -> InitSource {
    match config {
        Some(c) => if parsed_tokens(c).len() > 0 {
            InitSource::CustomList
        } else {
            InitSource::FallbackEmptyParse
        },
        None => InitSource::BuiltinDefaults,
    }
}

/// Initialize the protect-list and diagnostics flag from the raw
/// configuration values, exactly once: on an already-initialized state this
/// is a no-op and reports no source. The caller must read both raw values
/// through the unintercepted path.
pub fn init_token_list(state: &mut TokenState, config: Option<&str>, debug_flag: Option<&str>) -> (source: Option<
    InitSource,
>)
    requires
        old(state).wf(),
    ensures
        final(state).wf(),
        old(state).initialized ==> *final(state) == *old(state) && source is None,
        !old(state).initialized ==> {
            &&& final(state).initialized
            &&& final(state).cache == old(state).cache
            &&& final(state).debug_enabled == spec_debug_enabled(opt_view(debug_flag))
            &&& views_of(final(state).tokens@) == spec_effective_tokens(opt_view(config))
            &&& source == Some(spec_init_source(opt_view(config)))
        },
{
    if state.initialized {
        return None;
    }
    state.debug_enabled = is_debug_enabled(debug_flag);
    match config {
        Some(c) => {
            let parsed = parse_token_list(c);
            if parsed.len() > 0 {
                state.tokens = parsed;
                state.initialized = true;
                Some(InitSource::CustomList)
            } else {
                assert(parsed_tokens(c@).len() == 0);
                state.tokens = default_sensitive_tokens();
                state.initialized = true;
                Some(InitSource::FallbackEmptyParse)
            }
        },
        None => {
            state.tokens = default_sensitive_tokens();
            state.initialized = true;
            Some(InitSource::BuiltinDefaults)
        },
    }
}

} // verus!
