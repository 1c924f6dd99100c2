//! The engine's model of a repository: the full commit history reachable
//! from head (oldest first) and the release tags, plus the segmenter that
//! partitions that history into version-bounded segments.
use vstd::prelude::*;
use vstd::relations::sorted_by;
use vstd::relations::total_ordering;

use crate::version::Version;
use crate::version::version_lt;

verus! {

/// A commit as the engine sees it: id text, first summary line, author
/// email, and the full message. Only the message feeds classification; the
/// other fields feed changelog formatting.
#[derive(Debug)]
pub struct Commit {
    pub id: String,
    pub summary: String,
    pub author_email: String,
    pub message: String,
}

/// Mathematical view of a commit: its four texts.
#[verifier::ext_equal]
pub ghost struct CommitView {
    pub id: Seq<char>,
    pub summary: Seq<char>,
    pub author_email: Seq<char>,
    pub message: Seq<char>,
}

impl View for Commit {
    type V = CommitView;

    open spec fn view(&self) -> CommitView {
        CommitView {
            id: self.id@,
            summary: self.summary@,
            author_email: self.author_email@,
            message: self.message@,
        }
    }
}

impl Clone for Commit {
    fn clone(&self) -> (c: Self)
        ensures
            c@ == self@,
    {
        Commit {
            id: self.id.clone(),
            summary: self.summary.clone(),
            author_email: self.author_email.clone(),
            message: self.message.clone(),
        }
    }
}

/// The views of a run of commits.
pub open spec fn commit_views(s: Seq<Commit>) -> Seq<CommitView> {
    s.map_values(|c: Commit| c@)
}

/// A release tag: its parsed version and the position of the commit it
/// names in the oldest-first history.
#[derive(Clone, Copy, Debug, PartialEq, Eq, Structural)]
pub struct Tag {
    pub version: Version,
    pub index: usize,
}

/// Order on tags: by version, then by commit position.
pub open spec fn tag_le(a: Tag, b: Tag) -> bool {
    ||| version_lt(a.version, b.version)
    ||| (a.version == b.version && a.index <= b.index)
}

/// The tag order as a value, for sortedness statements.
pub open spec fn tag_leq() -> spec_fn(Tag, Tag) -> bool {
    |a: Tag, b: Tag| tag_le(a, b)
}

/// The tag order is a total order.
pub proof fn lemma_tag_le_total()
    ensures
        total_ordering(tag_leq()),
{
}

/// Does `a` come at or before `b` in tag order?
fn tag_le_ex(a: Tag, b: Tag) -> (r: bool)
    ensures
        r == tag_le(a, b),
{
    a.version.lt(&b.version) || (a.version == b.version && a.index <= b.index)
}

/// The repository as the engine sees it.
pub struct History {
    pub commits: Vec<Commit>,
    pub tags: Vec<Tag>,
}

/// Well-formedness of a history: release tags ascend strictly in version
/// and never move backwards in commit position (two tags may share a
/// commit), and every tag points into the history.
pub open spec fn wf_parts(commits: Seq<Commit>, tags: Seq<Tag>) -> bool {
    &&& forall|k: int|
        0 <= k && k + 1 < tags.len() ==> version_lt((#[trigger] tags[k]).version, tags[k + 1].version)
    &&& forall|k: int| 0 <= k && k + 1 < tags.len() ==> (#[trigger] tags[k]).index <= tags[k + 1].index
    &&& forall|k: int| 0 <= k < tags.len() ==> (#[trigger] tags[k]).index < commits.len()
}

/// Non-decreasing adjacent positions give monotone positions overall.
proof fn lemma_tag_indices_mono(tags: Seq<Tag>, i: int, j: int)
    requires
        forall|k: int|
            0 <= k && k + 1 < tags.len() ==> (#[trigger] tags[k]).index <= tags[k + 1].index,
        0 <= i <= j < tags.len(),
    ensures
        tags[i].index <= tags[j].index,
    decreases j - i,
{
    if i < j {
        lemma_tag_indices_mono(tags, i, j - 1);
        assert(tags[j - 1].index <= tags[j].index);
    }
}

/// Sort tags ascending by (version, position).
fn sort_tags(tags: &Vec<Tag>) -> (r: Vec<Tag>)
    ensures
        sorted_by(r@, tag_leq()),
        r@.to_multiset() == tags@.to_multiset(),
{
    let mut out: Vec<Tag> = Vec::new();
    let mut i: usize = 0;
    proof {
        assert(out@ =~= tags@.take(0));
    }
    while i < tags.len()
        invariant
            i <= tags@.len(),
            sorted_by(out@, tag_leq()),
            out@.to_multiset() == tags@.take(i as int).to_multiset(),
        decreases tags@.len() - i,
    {
        broadcast use vstd::seq_lib::group_to_multiset_ensures;

        let t = tags[i];
        let mut p: usize = 0;
        while p < out.len() && tag_le_ex(out[p], t)
            invariant
                p <= out@.len(),
                forall|q: int| 0 <= q < p ==> tag_le(#[trigger] out@[q], t),
            decreases out@.len() - p,
        {
            p = p + 1;
        }
        let ghost prev = out@;
        out.insert(p, t);
        proof {
            let ghost leq = tag_leq();
            prev.insert_ensures(p as int, t);
            assert(out@ == prev.insert(p as int, t));
            assert forall|x: int, y: int| 0 <= x < y < out@.len() implies leq(
                out@[x],
                out@[y],
            ) by {
                if y < p {
                    assert(out@[x] == prev[x] && out@[y] == prev[y]);
                    assert(leq(prev[x], prev[y]));
                } else if y == p {
                    assert(out@[x] == prev[x] && out@[y] == t);
                    assert(tag_le(prev[x], t));
                } else {
                    assert(out@[(y - 1) + 1] == prev[y - 1]);
                    if x < p {
                        assert(out@[x] == prev[x]);
                        assert(leq(prev[x], prev[y - 1]));
                    } else if x == p {
                        assert(out@[x] == t);
                        assert(p < prev.len());
                        assert(!tag_le(prev[p as int], t));
                        assert(tag_le(t, prev[p as int]));
                        if p < y - 1 {
                            assert(leq(prev[p as int], prev[y - 1]));
                        }
                        assert(tag_le(t, prev[y - 1]));
                    } else {
                        assert(out@[(x - 1) + 1] == prev[x - 1]);
                        if x - 1 < y - 1 {
                            assert(leq(prev[x - 1], prev[y - 1]));
                        }
                    }
                }
            };
            assert(sorted_by(out@, tag_leq()));
            assert(tags@.take(i + 1) =~= tags@.take(i as int).push(tags@[i as int]));
        }
        i = i + 1;
    }
    proof {
        assert(tags@.take(tags@.len() as int) =~= tags@);
    }
    out
}

impl History {
    /// Well-formed: see [`wf_parts`].
    pub open spec fn wf(&self) -> bool {
        wf_parts(self.commits@, self.tags@)
    }

    /// Build a history from the oldest-first commit list and the release
    /// tags in any order. The tags are sorted by version; the result is
    /// `None` when the sorted tags do not ascend strictly in version and
    /// monotonically in commit position within the history — the invariant
    /// the segmenter rests on.
    pub fn new(commits: Vec<Commit>, tags: Vec<Tag>) -> (r: Option<History>)
        ensures
            r is Some <==> wf_parts(commits@, tags@.sort_by(tag_leq())),
            r matches Some(h) ==> h.commits@ == commits@ && h.tags@ == tags@.sort_by(tag_leq())
                && h.wf(),
    {
        let sorted = sort_tags(&tags);
        proof {
            lemma_tag_le_total();
            tags@.lemma_sort_by_ensures(tag_leq());
            vstd::seq_lib::lemma_sorted_unique(sorted@, tags@.sort_by(tag_leq()), tag_leq());
            assert(sorted@ == tags@.sort_by(tag_leq()));
        }
        let n = sorted.len();
        if n > 0 {
            let mut k: usize = 1;
            while k < n
                invariant
                    1 <= k <= n,
                    n == sorted@.len(),
                    sorted@ == tags@.sort_by(tag_leq()),
                    forall|m: int|
                        0 <= m && m + 1 < k ==> version_lt(
                            (#[trigger] sorted@[m]).version,
                            sorted@[m + 1].version,
                        ),
                    forall|m: int|
                        0 <= m && m + 1 < k ==> (#[trigger] sorted@[m]).index <= sorted@[m + 1].index,
                decreases n - k,
            {
                if !sorted[k - 1].version.lt(&sorted[k].version) {
                    proof {
                        assert(!version_lt(sorted@[k - 1].version, sorted@[k as int].version));
                        assert(!wf_parts(commits@, sorted@));
                    }
                    return None;
                }
                if !(sorted[k - 1].index <= sorted[k].index) {
                    proof {
                        assert(!(sorted@[k - 1].index <= sorted@[k as int].index));
                        assert(!wf_parts(commits@, sorted@));
                    }
                    return None;
                }
                k = k + 1;
            }
            if !(sorted[n - 1].index < commits.len()) {
                proof {
                    assert(!(sorted@[n - 1].index < commits@.len()));
                    assert(!wf_parts(commits@, sorted@));
                }
                return None;
            }
            proof {
                assert forall|m: int| 0 <= m < n implies (#[trigger] sorted@[m]).index
                    < commits@.len() by {
                    lemma_tag_indices_mono(sorted@, m, n - 1);
                };
            }
        }
        Some(History { commits, tags: sorted })
    }
}

// ---------------------------------------------------------------------------
// Segmentation
// ---------------------------------------------------------------------------
/// Does the head commit bear the most recent release tag?
pub open spec fn head_tagged(h: History) -> bool {
    h.tags@.len() > 0 && h.tags@.last().index + 1 == h.commits@.len()
}

/// How many segments the history has: one per tag, plus the open trailing
/// segment unless the head is exactly the most recent tag; a history with
/// no tags at all has the single segment covering full history.
pub open spec fn seg_count(h: History) -> int {
    if h.tags@.len() == 0 {
        1
    } else if head_tagged(h) {
        h.tags@.len() as int
    } else {
        h.tags@.len() as int + 1
    }
}

/// First commit position of segment `k`.
pub open spec fn seg_lo(h: History, k: int) -> int {
    if k <= 0 {
        0
    } else {
        h.tags@[k - 1].index + 1
    }
}

/// One past the last commit position of segment `k`.
pub open spec fn seg_hi(h: History, k: int) -> int {
    if k < h.tags@.len() {
        h.tags@[k].index + 1
    } else {
        h.commits@.len() as int
    }
}

/// Lower bound tag of segment `k`; `None` means "from the beginning".
pub open spec fn seg_lower(h: History, k: int) -> Option<Version> {
    if k <= 0 {
        None
    } else {
        Some(h.tags@[k - 1].version)
    }
}

/// Upper bound tag of segment `k`; `None` means "up to the current head".
pub open spec fn seg_upper(h: History, k: int) -> Option<Version> {
    if k < h.tags@.len() {
        Some(h.tags@[k].version)
    } else {
        None
    }
}

/// The commits of segment `k`, oldest first.
pub open spec fn seg_commit_views(h: History, k: int) -> Seq<CommitView> {
    commit_views(h.commits@).subrange(seg_lo(h, k), seg_hi(h, k))
}

/// One version-bounded stretch of history. `lower` of `None` means "from
/// the beginning of history"; `upper` of `None` means "up to the current
/// head, untagged". Commits are ordered oldest-first.
pub struct Segment {
    pub lower: Option<Version>,
    pub upper: Option<Version>,
    pub commits: Vec<Commit>,
}

/// `s` is exactly segment `k` of `h`.
pub open spec fn segment_is(h: History, k: int, s: Segment) -> bool {
    &&& s.lower == seg_lower(h, k)
    &&& s.upper == seg_upper(h, k)
    &&& commit_views(s.commits@) == seg_commit_views(h, k)
}

/// Copy of the commits in positions `lo..hi`.
fn commit_slice(commits: &Vec<Commit>, lo: usize, hi: usize) -> (r: Vec<Commit>)
    requires
        lo <= hi <= commits@.len(),
    ensures
        commit_views(r@) == commit_views(commits@).subrange(lo as int, hi as int),
{
    let mut r: Vec<Commit> = Vec::new();
    let mut j: usize = lo;
    proof {
        assert(commit_views(r@) =~~= commit_views(commits@).subrange(lo as int, lo as int));
    }
    while j < hi
        invariant
            lo <= j <= hi <= commits@.len(),
            commit_views(r@) == commit_views(commits@).subrange(lo as int, j as int),
        decreases hi - j,
    {
        let c = commits[j].clone();
        proof {
            assert(c@ == commits@[j as int]@);
        }
        let ghost prev = r@;
        r.push(c);
        proof {
            assert(r@ == prev.push(c));
            assert(commit_views(prev).len() == prev.len());
            assert(prev.len() == j - lo);
            assert(r@.len() == j + 1 - lo);
            assert(commit_views(r@).len() == r@.len());
            assert(commit_views(r@).len() == j + 1 - lo);
            assert(commit_views(commits@).subrange(lo as int, j + 1 as int).len() == j + 1 - lo);
            assert forall|m: int| 0 <= m < r@.len() implies commit_views(r@)[m] == commit_views(
                commits@,
            ).subrange(lo as int, j + 1 as int)[m] by {
                if m < prev.len() {
                    assert(r@[m] == prev[m]);
                    assert(commit_views(prev)[m] == commit_views(commits@).subrange(
                        lo as int,
                        j as int,
                    )[m]);
                } else {
                    assert(r@[m] == c);
                }
            };
            assert(commit_views(r@) =~= commit_views(commits@).subrange(lo as int, j + 1 as int));
        }
        j = j + 1;
    }
    r
}

/// The sorted release versions, one per tag.
pub fn versions(h: &History) -> (r: Vec<Version>)
    ensures
        r@ == h.tags@.map_values(|t: Tag| t.version),
{
    let mut r: Vec<Version> = Vec::new();
    let mut k: usize = 0;
    proof {
        assert(r@ =~= h.tags@.take(0).map_values(|t: Tag| t.version));
    }
    while k < h.tags.len()
        invariant
            k <= h.tags@.len(),
            r@ == h.tags@.take(k as int).map_values(|t: Tag| t.version),
        decreases h.tags@.len() - k,
    {
        r.push(h.tags[k].version);
        proof {
            assert(r@ =~= h.tags@.take(k + 1 as int).map_values(|t: Tag| t.version));
        }
        k = k + 1;
    }
    proof {
        assert(h.tags@.take(h.tags@.len() as int) =~= h.tags@);
    }
    r
}

/// Does the head commit currently bear the most recent release tag?
pub fn is_head_tagged(h: &History) -> (r: bool)
    ensures
        r == head_tagged(*h),
{
    if h.tags.len() == 0 {
        false
    } else {
        let t = h.tags[h.tags.len() - 1];
        h.commits.len() > 0 && t.index == h.commits.len() - 1
    }
}

/// Partition the history into its segments, oldest segment first.
pub fn segments(h: &History) -> (r: Vec<Segment>)
    requires
        h.wf(),
    ensures
        r@.len() == seg_count(*h),
        forall|k: int| 0 <= k < r@.len() ==> segment_is(*h, k, #[trigger] r@[k]),
{
    let mut r: Vec<Segment> = Vec::new();
    let n = h.tags.len();
    let clen = h.commits.len();
    let mut k: usize = 0;
    while k < n
        invariant
            h.wf(),
            k <= n,
            n == h.tags@.len(),
            clen == h.commits@.len(),
            r@.len() == k,
            forall|m: int| 0 <= m < k ==> segment_is(*h, m, #[trigger] r@[m]),
        decreases n - k,
    {
        proof {
            assert(h.tags@[k as int].index < h.commits@.len());
            if k > 0 {
                assert(h.tags@[k - 1].index <= h.tags@[k as int].index);
            }
        }
        let lo = if k == 0 {
            0
        } else {
            h.tags[k - 1].index + 1
        };
        let hi = h.tags[k].index + 1;
        let lower = if k == 0 {
            Option::None
        } else {
            Option::Some(h.tags[k - 1].version)
        };
        let upper = Option::Some(h.tags[k].version);
        let commits = commit_slice(&h.commits, lo, hi);
        r.push(Segment { lower, upper, commits });
        k = k + 1;
    }
    if n == 0 {
        let commits = commit_slice(&h.commits, 0, h.commits.len());
        r.push(Segment { lower: Option::None, upper: Option::None, commits });
    } else if !is_head_tagged(h) {
        proof {
            assert(h.tags@[n - 1].index < h.commits@.len());
        }
        let lo = h.tags[n - 1].index + 1;
        let commits = commit_slice(&h.commits, lo, h.commits.len());
        r.push(Segment { lower: Option::Some(h.tags[n - 1].version), upper: Option::None, commits });
    }
    r
}

/// Law: a history with `N` release tags has exactly `N + 1` segments — the
/// `N` tag-bounded ones plus the open trailing segment — except when the
/// head commit bears the most recent tag, which yields exactly `N`.
pub proof fn lemma_segment_count(h: History)
    requires
        h.wf(),
    ensures
        head_tagged(h) ==> seg_count(h) == h.tags@.len(),
        !head_tagged(h) ==> seg_count(h) == h.tags@.len() + 1,
{
}

/// The first `k` segments of `h`, concatenated in order.
pub open spec fn seg_concat(h: History, k: int) -> Seq<CommitView>
    decreases k,
{
    if k <= 0 {
        Seq::empty()
    } else {
        seg_concat(h, k - 1) + seg_commit_views(h, k - 1)
    }
}

/// The first `k` segments concatenated are exactly the history up to the
/// end of segment `k - 1`.
proof fn lemma_seg_concat_prefix(h: History, k: int)
    requires
        h.wf(),
        1 <= k <= seg_count(h),
    ensures
        seg_concat(h, k) == commit_views(h.commits@).subrange(0, seg_hi(h, k - 1)),
    decreases k,
{
    if k == 1 {
        if h.tags@.len() > 0 {
            assert(h.tags@[0].index < h.commits@.len());
        }
        assert(seg_concat(h, 0) =~= Seq::<CommitView>::empty());
        assert(seg_concat(h, 1) =~= commit_views(h.commits@).subrange(0, seg_hi(h, 0)));
    } else {
        lemma_seg_concat_prefix(h, k - 1);
        if k - 1 < h.tags@.len() {
            assert(h.tags@[k - 2].index <= h.tags@[k - 1].index);
            assert(h.tags@[k - 1].index < h.commits@.len());
        } else {
            assert(h.tags@[k - 2].index < h.commits@.len());
        }
        assert(seg_lo(h, k - 1) == seg_hi(h, k - 2));
        assert(seg_concat(h, k) =~= commit_views(h.commits@).subrange(0, seg_hi(h, k - 1)));
    }
}

/// Law: the segments are contiguous and non-overlapping — concatenated in
/// order they are exactly the full history reachable from head, so every
/// commit lies in exactly one segment.
pub proof fn lemma_segments_partition(h: History)
    requires
        h.wf(),
    ensures
        seg_concat(h, seg_count(h)) == commit_views(h.commits@),
{
    lemma_seg_concat_prefix(h, seg_count(h));
    if h.tags@.len() > 0 && head_tagged(h) {
        assert(h.tags@.last() == h.tags@[h.tags@.len() - 1]);
    }
    assert(commit_views(h.commits@).subrange(0, seg_hi(h, seg_count(h) - 1)) =~= commit_views(
        h.commits@,
    ));
}

} // verus!
