//! The bump classifier and aggregator: maps one commit message to a bump
//! level by the conventional-commit rules, and reduces a run of commits to
//! the single loudest level present.
use vstd::prelude::*;

use crate::Bump;
use crate::bump_level;
use crate::bump_max;
use crate::history::Commit;
use crate::history::CommitView;
use crate::history::History;
use crate::history::commit_views;
use crate::history::head_tagged;
use crate::history::is_head_tagged;
use crate::history::seg_commit_views;
use crate::history::seg_count;

verus! {

/// A word character: ASCII letter, digit or underscore.
pub open spec fn is_word_char(c: char) -> bool {
    ('a' <= c && c <= 'z') || ('A' <= c && c <= 'Z') || ('0' <= c && c <= '9') || c == '_'
}

/// A scope character: word character or space.
pub open spec fn is_scope_char(c: char) -> bool {
    is_word_char(c) || c == ' '
}

/// `": "` followed by at least one word character, at position `i` of `m`.
pub open spec fn colon_text_at(m: Seq<char>, i: int) -> bool {
    0 <= i && i + 3 <= m.len() && m[i] == ':' && m[i + 1] == ' ' && is_word_char(m[i + 2])
}

/// A parenthesised non-empty scope: `m[i] == '('`, scope characters up to
/// the `')'` at `j`, then `": <text>"`.
pub open spec fn scope_close_at(m: Seq<char>, i: int, j: int) -> bool {
    &&& i + 2 <= j < m.len()
    &&& m[j] == ')'
    &&& (forall|k: int| i < k < j ==> is_scope_char(#[trigger] m[k]))
    &&& colon_text_at(m, j + 1)
}

/// What follows a type keyword ending at `i`: an optional scope, then
/// `": <text>"`.
pub open spec fn after_keyword_at(m: Seq<char>, i: int) -> bool {
    ||| colon_text_at(m, i)
    ||| (0 <= i < m.len() && m[i] == '(' && exists|j: int| scope_close_at(m, i, j))
}

/// `pat` occurs in `m` starting at position `i`.
pub open spec fn substr_at(m: Seq<char>, i: int, pat: Seq<char>) -> bool {
    0 <= i && i + pat.len() <= m.len() && m.subrange(i, i + pat.len()) == pat
}

/// `i` is the start of the message or directly follows a newline.
pub open spec fn line_start(m: Seq<char>, i: int) -> bool {
    i == 0 || (0 < i <= m.len() && m[i - 1] == '\n')
}

/// The keyword `kw` stands at some line start of `m`, followed by an
/// optional scope and `": <text>"`.
pub open spec fn type_match(m: Seq<char>, kw: Seq<char>) -> bool {
    exists|i: int|
        line_start(m, i) && #[trigger] substr_at(m, i, kw) && after_keyword_at(m, i + kw.len())
}

/// The marker whose presence anywhere in the message makes a commit a
/// breaking change.
pub open spec fn breaking_marker() -> Seq<char> {
    "BREAKING CHANGE"@
}

/// `m` contains the breaking-change marker somewhere.
pub open spec fn has_breaking(m: Seq<char>) -> bool {
    exists|i: int| #[trigger] substr_at(m, i, breaking_marker())
}

/// One of the prerelease-severity commit types matches.
pub open spec fn prerelease_match(m: Seq<char>) -> bool {
    ||| type_match(m, "test"@)
    ||| type_match(m, "build"@)
    ||| type_match(m, "chore"@)
    ||| type_match(m, "ci"@)
    ||| type_match(m, "docs"@)
    ||| type_match(m, "perf"@)
    ||| type_match(m, "refactor"@)
    ||| type_match(m, "revert"@)
    ||| type_match(m, "style"@)
}

/// The bump level of one commit message: the maximum-severity rule that
/// matches, over the whole rule set. A message matching no rule classifies
/// as `Nothing`.
pub open spec fn classify_spec(m: Seq<char>) -> Bump {
    if has_breaking(m) {
        Bump::Major
    } else if type_match(m, "feat"@) {
        Bump::Minor
    } else if type_match(m, "fix"@) {
        Bump::Patch
    } else if prerelease_match(m) {
        Bump::Prerelease
    } else {
        Bump::Nothing
    }
}

/// Is `c` a word character?
fn word_char(c: char) -> (r: bool)
    ensures
        r == is_word_char(c),
{
    ('a' <= c && c <= 'z') || ('A' <= c && c <= 'Z') || ('0' <= c && c <= '9') || c == '_'
}

/// Is `c` a scope character?
fn scope_char(c: char) -> (r: bool)
    ensures
        r == is_scope_char(c),
{
    word_char(c) || c == ' '
}

/// Does `pat` occur in `s` at position `i`?
fn substr_at_ex(s: &str, n: usize, i: usize, pat: &str, plen: usize) -> (r: bool)
    requires
        n == s@.len(),
        i <= n,
        plen == pat@.len(),
    ensures
        r == substr_at(s@, i as int, pat@),
{
    if plen > n - i {
        return false;
    }
    let mut k: usize = 0;
    while k < plen
        invariant
            n == s@.len(),
            plen == pat@.len(),
            i + plen <= n,
            k <= plen,
            forall|q: int| 0 <= q < k ==> s@[i + q] == pat@[q],
        decreases plen - k,
    {
        if s.get_char(i + k) != pat.get_char(k) {
            proof {
                assert(s@.subrange(i as int, i + plen as int)[k as int] == s@[i + k]);
            }
            return false;
        }
        k = k + 1;
    }
    proof {
        assert(s@.subrange(i as int, i + plen as int) =~= pat@);
    }
    true
}

/// Does `": <text>"` stand at position `i`?
fn colon_text_ex(s: &str, n: usize, i: usize) -> (r: bool)
    requires
        n == s@.len(),
        i <= n,
    ensures
        r == colon_text_at(s@, i as int),
{
    if n - i < 3 {
        return false;
    }
    if s.get_char(i) != ':' {
        return false;
    }
    if s.get_char(i + 1) != ' ' {
        return false;
    }
    word_char(s.get_char(i + 2))
}

/// Does an optional scope followed by `": <text>"` stand at position `i`?
fn after_keyword_ex(s: &str, n: usize, i: usize) -> (r: bool)
    requires
        n == s@.len(),
        i <= n,
    ensures
        r == after_keyword_at(s@, i as int),
{
    if colon_text_ex(s, n, i) {
        return true;
    }
    if i == n || s.get_char(i) != '(' {
        return false;
    }
    let mut p: usize = i + 1;
    while p < n && scope_char(s.get_char(p))
        invariant
            n == s@.len(),
            i + 1 <= p <= n,
            forall|k: int| i < k < p ==> is_scope_char(#[trigger] s@[k]),
        decreases n - p,
    {
        p = p + 1;
    }
    let ok = p > i + 1 && p < n && s.get_char(p) == ')' && colon_text_ex(s, n, p + 1);
    if ok {
        proof {
            assert(scope_close_at(s@, i as int, p as int));
        }
        true
    } else {
        proof {
            assert forall|j: int| !scope_close_at(s@, i as int, j) by {
                if i + 2 <= j && j < n {
                    if j < p {
                        assert(is_scope_char(s@[j]));
                    } else if j > p {
                        assert(p < n);
                        assert(is_scope_char(s@[p as int]) == false);
                    }
                }
            };
        }
        false
    }
}

/// Does the keyword `kw` match at some line start of `s`?
fn type_match_ex(s: &str, n: usize, kw: &str) -> (r: bool)
    requires
        n == s@.len(),
        kw@.len() >= 1,
    ensures
        r == type_match(s@, kw@),
{
    let plen = kw.unicode_len();
    let mut i: usize = 0;
    while i < n
        invariant
            n == s@.len(),
            plen == kw@.len(),
            plen >= 1,
            i <= n,
            forall|q: int|
                0 <= q < i ==> !(line_start(s@, q) && #[trigger] substr_at(s@, q, kw@)
                    && after_keyword_at(s@, q + kw@.len())),
        decreases n - i,
    {
        let ls = i == 0 || s.get_char(i - 1) == '\n';
        if ls && substr_at_ex(s, n, i, kw, plen) && after_keyword_ex(s, n, i + plen) {
            proof {
                assert(line_start(s@, i as int) && substr_at(s@, i as int, kw@)
                    && after_keyword_at(s@, i + kw@.len()));
            }
            return true;
        }
        i = i + 1;
    }
    proof {
        assert forall|q: int| !(line_start(s@, q) && #[trigger] substr_at(s@, q, kw@)
            && after_keyword_at(s@, q + kw@.len())) by {
            if 0 <= q < n {
            } else {
                assert(!substr_at(s@, q, kw@));
            }
        };
    }
    false
}

/// Does the breaking-change marker occur anywhere in `s`?
fn has_breaking_ex(s: &str, n: usize) -> (r: bool)
    requires
        n == s@.len(),
    ensures
        r == has_breaking(s@),
{
    proof {
        reveal_strlit("BREAKING CHANGE");
    }
    let plen = "BREAKING CHANGE".unicode_len();
    let mut i: usize = 0;
    while i < n
        invariant
            n == s@.len(),
            plen == breaking_marker().len(),
            plen >= 1,
            i <= n,
            forall|q: int| 0 <= q < i ==> !substr_at(s@, q, breaking_marker()),
        decreases n - i,
    {
        proof {
            assert(breaking_marker() == "BREAKING CHANGE"@);
        }
        if substr_at_ex(s, n, i, "BREAKING CHANGE", plen) {
            proof {
                assert(substr_at(s@, i as int, breaking_marker()));
            }
            return true;
        }
        i = i + 1;
    }
    proof {
        assert forall|q: int| !substr_at(s@, q, breaking_marker()) by {
            if 0 <= q < n {
            }
        };
    }
    false
}

/// Classify one commit message by the conventional-commit rule table and
/// return the single highest bump among all matching rules. A pure
/// function of the message text: identical input yields identical output.
pub fn classify(message: &str) -> (b: Bump)
    ensures
        b == classify_spec(message@),
{
    proof {
        reveal_strlit("feat");
        reveal_strlit("fix");
        reveal_strlit("test");
        reveal_strlit("build");
        reveal_strlit("chore");
        reveal_strlit("ci");
        reveal_strlit("docs");
        reveal_strlit("perf");
        reveal_strlit("refactor");
        reveal_strlit("revert");
        reveal_strlit("style");
    }
    let n = message.unicode_len();
    if has_breaking_ex(message, n) {
        return Bump::Major;
    }
    if type_match_ex(message, n, "feat") {
        return Bump::Minor;
    }
    if type_match_ex(message, n, "fix") {
        return Bump::Patch;
    }
    if type_match_ex(message, n, "test") || type_match_ex(message, n, "build") || type_match_ex(
        message,
        n,
        "chore",
    ) || type_match_ex(message, n, "ci") || type_match_ex(message, n, "docs") || type_match_ex(
        message,
        n,
        "perf",
    ) || type_match_ex(message, n, "refactor") || type_match_ex(message, n, "revert")
        || type_match_ex(message, n, "style") {
        return Bump::Prerelease;
    }
    Bump::Nothing
}

/// Bump level of one commit, from its full message.
pub fn commit_bump(c: &Commit) -> (b: Bump)
    ensures
        b == classify_spec(c@.message),
{
    classify(c.message.as_str())
}

// ---------------------------------------------------------------------------
// Aggregation
// ---------------------------------------------------------------------------
/// The loudest classification in a run of commits; `Nothing` for an empty
/// run.
pub open spec fn aggregate_spec(cs: Seq<CommitView>) -> Bump
    decreases cs.len(),
{
    if cs.len() == 0 {
        Bump::Nothing
    } else {
        bump_max(aggregate_spec(cs.drop_last()), classify_spec(cs.last().message))
    }
}

/// Reduce a run of commits to the single maximum bump level present.
pub fn aggregate(commits: &Vec<Commit>) -> (b: Bump)
    ensures
        b == aggregate_spec(commit_views(commits@)),
{
    let ghost cs = commit_views(commits@);
    let mut acc = Bump::Nothing;
    let mut i: usize = 0;
    proof {
        assert(cs.take(0) =~= Seq::<CommitView>::empty());
    }
    while i < commits.len()
        invariant
            cs == commit_views(commits@),
            i <= commits@.len(),
            acc == aggregate_spec(cs.take(i as int)),
        decreases commits@.len() - i,
    {
        let b = classify(commits[i].message.as_str());
        proof {
            assert(cs[i as int] == commits@[i as int]@);
            assert(cs.take(i + 1).drop_last() =~= cs.take(i as int));
            assert(cs.take(i + 1).last() == cs[i as int]);
        }
        if b.level() > acc.level() {
            acc = b;
        }
        i = i + 1;
    }
    proof {
        assert(cs.take(commits@.len() as int) =~= cs);
    }
    acc
}

/// The bump implied by the whole history: the aggregate of the newest
/// segment, forced to `Nothing` when the head commit bears the most recent
/// release tag (a tagged head means no pending release).
pub open spec fn bump_spec(h: History) -> Bump {
    if head_tagged(h) {
        Bump::Nothing
    } else {
        aggregate_spec(seg_commit_views(h, seg_count(h) - 1))
    }
}

/// Compute the suggested bump for the history.
pub fn bump(h: &History) -> (b: Bump)
    requires
        h.wf(),
    ensures
        b == bump_spec(*h),
{
    if is_head_tagged(h) {
        return Bump::Nothing;
    }
    let clen = h.commits.len();
    let lo = if h.tags.len() == 0 {
        0
    } else {
        proof {
            assert(h.tags@[h.tags@.len() - 1].index < h.commits@.len());
        }
        h.tags[h.tags.len() - 1].index + 1
    };
    let ghost cs = commit_views(h.commits@);
    let ghost kseg = seg_count(*h) - 1;
    proof {
        assert(seg_commit_views(*h, kseg) == cs.subrange(lo as int, clen as int));
    }
    let mut acc = Bump::Nothing;
    let mut i: usize = lo;
    proof {
        assert(cs.subrange(lo as int, lo as int) =~= Seq::<CommitView>::empty());
    }
    while i < clen
        invariant
            h.wf(),
            cs == commit_views(h.commits@),
            clen == h.commits@.len(),
            lo <= i <= clen,
            acc == aggregate_spec(cs.subrange(lo as int, i as int)),
        decreases clen - i,
    {
        let b = classify(h.commits[i].message.as_str());
        proof {
            assert(cs[i as int] == h.commits@[i as int]@);
            assert(cs.subrange(lo as int, i + 1).drop_last() =~= cs.subrange(lo as int, i as int));
            assert(cs.subrange(lo as int, i + 1).last() == cs[i as int]);
        }
        if b.level() > acc.level() {
            acc = b;
        }
        i = i + 1;
    }
    acc
}

// ---------------------------------------------------------------------------
// Laws
// ---------------------------------------------------------------------------
/// Law: an empty commit run aggregates to `Nothing`, the identity element.
pub proof fn lemma_aggregate_empty()
    ensures
        aggregate_spec(Seq::<CommitView>::empty()) == Bump::Nothing,
{
}

/// A concatenation aggregates to the louder of its two parts.
pub proof fn lemma_aggregate_concat(a: Seq<CommitView>, b: Seq<CommitView>)
    ensures
        aggregate_spec(a + b) == bump_max(aggregate_spec(a), aggregate_spec(b)),
    decreases b.len(),
{
    if b.len() == 0 {
        assert(a + b =~= a);
    } else {
        lemma_aggregate_concat(a, b.drop_last());
        assert((a + b).drop_last() =~= a + b.drop_last());
        assert((a + b).last() == b.last());
    }
}

/// Law: aggregation is monotonic — adding a commit anywhere to a run never
/// lowers the aggregate bump.
pub proof fn lemma_aggregate_monotonic(cs: Seq<CommitView>, i: int, c: CommitView)
    requires
        0 <= i <= cs.len(),
    ensures
        bump_level(aggregate_spec(cs)) <= bump_level(aggregate_spec(cs.insert(i, c))),
{
    let pre = cs.take(i);
    let post = cs.skip(i);
    assert(cs =~= pre + post);
    assert(cs.insert(i, c) =~= pre + (seq![c] + post));
    lemma_aggregate_concat(pre, post);
    lemma_aggregate_concat(pre, seq![c] + post);
    lemma_aggregate_concat(seq![c], post);
    assert(seq![c].drop_last() =~= Seq::<CommitView>::empty());
}

/// Law: classification is a pure function of the message text alone —
/// commits with equal messages classify equally, whatever else
/// distinguishes them.
pub proof fn lemma_classify_pure(a: CommitView, b: CommitView)
    requires
        a.message == b.message,
    ensures
        classify_spec(a.message) == classify_spec(b.message),
{
}

/// Law: when the head commit currently bears the most recent release tag,
/// the bump is `Nothing`, even where earlier, already-released commits
/// would classify higher.
pub proof fn lemma_head_tagged_bump(h: History)
    requires
        head_tagged(h),
    ensures
        bump_spec(h) == Bump::Nothing,
{
}

} // verus!
