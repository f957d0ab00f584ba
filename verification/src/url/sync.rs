use vstd::prelude::*;

verus! {

/// Whether settings were restored from the URL on startup.
#[derive(Debug, Clone, Copy, PartialEq, Eq, Structural)]
pub struct UrlHydrated(pub bool);

/// A fragment flush is queued for the next post-update.
#[derive(Debug, Clone, Copy, PartialEq, Eq, Structural)]
pub struct PendingUrlSync(pub bool);

impl Default for UrlHydrated {
    fn default() -> (h: Self)
        ensures
            !h.0,
    {
        UrlHydrated(false)
    }
}

impl Default for PendingUrlSync {
    fn default() -> (p: Self)
        ensures
            !p.0,
    {
        PendingUrlSync(false)
    }
}

/// At startup, queue a flush unless the settings came from the URL, so that the URL
/// shows the applied state.
pub fn queue_initial_url_flush(hydrated: &UrlHydrated, pending: &mut PendingUrlSync)
    ensures
        final(pending).0 == (old(pending).0 || !hydrated.0),
{
    if !hydrated.0 {
        pending.0 = true;
    }
}

/// Queue a flush when the applied settings or config changed this frame.
pub fn detect_applied_changes(settings_changed: bool, config_changed: bool, pending: &mut PendingUrlSync)
    ensures
        final(pending).0 == (old(pending).0 || settings_changed || config_changed),
{
    if settings_changed || config_changed {
        pending.0 = true;
    }
}

/// Takes the queued flush: returns whether one was queued and clears the queue.
pub fn take_pending_flush(pending: &mut PendingUrlSync) -> (queued: bool)
    ensures
        queued == old(pending).0,
        !final(pending).0,
{
    let queued = pending.0;
    pending.0 = false;
    queued
}

/// Characters with the Unicode `White_Space` property, which `char::is_whitespace` tests.
pub open spec fn is_unicode_whitespace(c: char) -> bool {
    let u = c as u32;
    ||| 9 <= u <= 13
    ||| u == 32
    ||| u == 0x85
    ||| u == 0xA0
    ||| u == 0x1680
    ||| 0x2000 <= u <= 0x200A
    ||| u == 0x2028
    ||| u == 0x2029
    ||| u == 0x202F
    ||| u == 0x205F
    ||| u == 0x3000
}

/// `r` is `s` without its leading and trailing whitespace.
pub open spec fn is_trim_of(r: Seq<char>, s: Seq<char>) -> bool {
    exists|i: int, j: int|
        0 <= i <= j <= s.len() && r == s.subrange(i, j) && (forall|k: int|
            0 <= k < i ==> is_unicode_whitespace(#[trigger] s[k])) && (forall|k: int|
            j <= k < s.len() ==> is_unicode_whitespace(#[trigger] s[k])) && (i < j
            ==> !is_unicode_whitespace(s[i]) && !is_unicode_whitespace(s[j - 1]))
}

/// Whether `c` has the Unicode `White_Space` property.
fn is_whitespace_char(c: char) -> (ws: bool)
    ensures
        ws == is_unicode_whitespace(c),
{
    let u = c as u32;
    (9 <= u && u <= 13) || u == 32 || u == 0x85 || u == 0xA0 || u == 0x1680 || (0x2000 <= u && u
        <= 0x200A) || u == 0x2028 || u == 0x2029 || u == 0x202F || u == 0x205F || u == 0x3000
}

/// The slice of `s` without leading and trailing `White_Space` characters, as
/// `str::trim` gives.
fn trim_whitespace(s: &str) -> (t: &str)
    ensures
        is_trim_of(t@, s@),
{
    let n = s.unicode_len();
    let mut i: usize = 0;
    let mut scanning = true;
    while scanning && i < n
        invariant
            n == s@.len(),
            0 <= i <= n,
            forall|k: int| 0 <= k < i ==> is_unicode_whitespace(#[trigger] s@[k]),
            !scanning ==> i < n && !is_unicode_whitespace(s@[i as int]),
        decreases n - i + (if scanning { 1int } else { 0int }),
    {
        if is_whitespace_char(s.get_char(i)) {
            i = i + 1;
        } else {
            scanning = false;
        }
    }
    let mut j: usize = n;
    let mut scanning_back = true;
    while scanning_back && j > i
        invariant
            n == s@.len(),
            0 <= i <= j <= n,
            forall|k: int| j <= k < n ==> is_unicode_whitespace(#[trigger] s@[k]),
            !scanning_back ==> i < j && !is_unicode_whitespace(s@[j - 1]),
        decreases j - i + (if scanning_back { 1int } else { 0int }),
    {
        if is_whitespace_char(s.get_char(j - 1)) {
            j = j - 1;
        } else {
            scanning_back = false;
        }
    }
    proof {
        if i < j {
            if scanning {
                assert(i == n);
            }
            assert(!is_unicode_whitespace(s@[i as int]));
            if scanning_back {
                assert(j == i);
            }
        }
    }
    let t = s.substring_char(i, j);
    assert(is_trim_of(t@, s@)) by {
        assert(0 <= i <= j <= s@.len() && t@ == s@.subrange(i as int, j as int));
    }
    t
}

/// The fragment body, trimmed, when it holds a versioned state (`v=...`).
pub open spec fn is_versioned_state(t: Seq<char>) -> bool {
    t.len() >= 2 && t[0] == 'v' && t[1] == '='
}

/// The state token to decode from the URL fragment body: the trimmed body when it starts
/// with `v=`; otherwise nothing is restored.
pub fn hydration_query(fragment_body: &str) -> (query: Option<&str>)
    ensures
        match query {
            Some(q) => is_trim_of(q@, fragment_body@) && is_versioned_state(q@),
            None => forall|t: Seq<char>| is_trim_of(t, fragment_body@) ==> !is_versioned_state(t),
        },
{
    let trimmed = trim_whitespace(fragment_body);
    proof {
        lemma_trim_unique(trimmed@, fragment_body@);
    }
    if trimmed.unicode_len() >= 2 && trimmed.get_char(0) == 'v' && trimmed.get_char(1) == '=' {
        Some(trimmed)
    } else {
        None
    }
}

/// The trim of a string is unique.
proof fn lemma_trim_unique(r: Seq<char>, s: Seq<char>)
    requires
        is_trim_of(r, s),
    ensures
        forall|t: Seq<char>| is_trim_of(t, s) ==> t == r,
{
    let (i, j) = choose|i: int, j: int|
        0 <= i <= j <= s.len() && r == s.subrange(i, j) && (forall|k: int|
            0 <= k < i ==> is_unicode_whitespace(#[trigger] s[k])) && (forall|k: int|
            j <= k < s.len() ==> is_unicode_whitespace(#[trigger] s[k])) && (i < j
            ==> !is_unicode_whitespace(s[i]) && !is_unicode_whitespace(s[j - 1]));
    assert forall|t: Seq<char>| is_trim_of(t, s) implies t == r by {
        let (a, b) = choose|a: int, b: int|
            0 <= a <= b <= s.len() && t == s.subrange(a, b) && (forall|k: int|
                0 <= k < a ==> is_unicode_whitespace(#[trigger] s[k])) && (forall|k: int|
                b <= k < s.len() ==> is_unicode_whitespace(#[trigger] s[k])) && (a < b
                ==> !is_unicode_whitespace(s[a]) && !is_unicode_whitespace(s[b - 1]));
        if i < j && a < b {
            assert(i == a) by {
                if i < a {
                    assert(is_unicode_whitespace(s[i]));
                } else if a < i {
                    assert(is_unicode_whitespace(s[a]));
                }
            }
            assert(j == b) by {
                if j < b {
                    assert(is_unicode_whitespace(s[b - 1]));
                } else if b < j {
                    assert(is_unicode_whitespace(s[j - 1]));
                }
            }
        } else if i < j {
            // all of s is whitespace by the second trim, contradicting s[i]
            if i < a {
                assert(is_unicode_whitespace(s[i]));
            } else {
                assert(is_unicode_whitespace(s[i]));
            }
        } else if a < b {
            if a < i {
                assert(is_unicode_whitespace(s[a]));
            } else {
                assert(is_unicode_whitespace(s[a]));
            }
        }
        assert(t =~= r);
    }
}

/// The last state token written to (or found in) the URL fragment.
#[derive(Debug)]
pub struct UrlFlushState {
    pub last_token: Option<String>,
}

/// Whether `query` differs from the last token flushed.
pub open spec fn needs_write_spec(last_token: Option<Seq<char>>, query: Seq<char>) -> bool {
    match last_token {
        Some(t) => t != query,
        None => true,
    }
}

impl UrlFlushState {
    pub open spec fn last_view(&self) -> Option<Seq<char>> {
        match &self.last_token {
            Some(t) => Some(t@),
            None => None,
        }
    }

    pub fn new() -> (state: Self)
        ensures
            state.last_view() is None,
    {
        UrlFlushState { last_token: None }
    }

    /// Whether the encoded state `query` still has to reach the URL fragment.
    pub fn needs_write(&self, query: &str) -> (needed: bool)
        ensures
            needed == needs_write_spec(self.last_view(), query@),
    {
        match &self.last_token {
            None => true,
            Some(last) => {
                let q = String::from_str(query);
                !(*last == q)
            },
        }
    }

    /// Records `query` as the fragment's token once the fragment is known to hold it
    /// (it already did, or it was replaced successfully).
    pub fn record(&mut self, query: String, fragment_holds_query: bool)
        ensures
            fragment_holds_query ==> final(self).last_view() == Some(query@),
            !fragment_holds_query ==> final(self).last_view() == old(self).last_view(),
    {
        if fragment_holds_query {
            self.last_token = Some(query);
        }
    }
}

/// After comparing the fragment with the encoded state: replace the fragment only when it
/// does not hold that state already.
pub fn should_replace_fragment(fragment_equals: bool) -> (replace: bool)
    ensures
        replace == !fragment_equals,
{
    !fragment_equals
}

/// One flush of the URL fragment, step by step: take the queued flag; when it was set and
/// the state encodes to `query` (`None` when encoding fails) that differs from the last
/// token, compare the fragment with it (`fragment_equals` is the answer), replace the
/// fragment when they differ (`replace_ok` is whether that succeeded), and record the
/// token when the fragment then holds it.
/// Gives: the queued flag afterwards, the last token afterwards, whether the fragment was
/// compared, and whether it was replaced.
pub open spec fn flush_outcome(
    queued: bool,
    last: Option<Seq<char>>,
    query: Option<Seq<char>>,
    fragment_equals: bool,
    replace_ok: bool,
) -> (bool, Option<Seq<char>>, bool, bool) {
    if !queued {
        (false, last, false, false)
    } else {
        match query {
            None => (false, last, false, false),
            Some(q) => if !needs_write_spec(last, q) {
                (false, last, false, false)
            } else {
                let replace = !fragment_equals;
                let held = fragment_equals || (replace && replace_ok);
                (false, if held { Some(q) } else { last }, true, replace)
            },
        }
    }
}

/// What a flush does, as a whole: nothing without a queued flush; the queue is always
/// cleared; the fragment is compared, and replaced, only for a newly encoded state that
/// differs from the last token, and replaced only when it does not hold it; the token is
/// recorded exactly when the fragment then holds the state. Once a state's token is
/// recorded, flushing that state again neither compares nor replaces, and keeps the token.
pub proof fn lemma_url_flush_law(
    queued: bool,
    last: Option<Seq<char>>,
    query: Option<Seq<char>>,
    fragment_equals: bool,
    replace_ok: bool,
)
    ensures
        ({
            let (pending_after, last_after, compared, replaced) = flush_outcome(
                queued,
                last,
                query,
                fragment_equals,
                replace_ok,
            );
            &&& !pending_after
            &&& !queued ==> last_after == last && !compared && !replaced
            &&& compared <==> (queued && query is Some && last != query)
            &&& replaced <==> (compared && !fragment_equals)
            &&& compared ==> last_after == (if fragment_equals || replace_ok {
                query
            } else {
                last
            })
            &&& !compared ==> last_after == last
            &&& (last is Some && query == last) ==> !compared && !replaced && last_after == last
        }),
{
}

/// Once a token is recorded, flushing the same encoded state again writes nothing.
pub proof fn lemma_recorded_token_not_rewritten(query: Seq<char>)
    ensures
        !needs_write_spec(Some(query), query),
{
}

} // verus!
