//! The changelog assembler: renders every segment's commits as lines and
//! closes each segment with a version header; the whole output is
//! reversed, so the newest segment and its header come first.
use vstd::prelude::*;

use crate::history::Commit;
use crate::history::CommitView;
use crate::history::History;
use crate::history::seg_commit_views;
use crate::history::seg_count;
use crate::history::seg_upper;
use crate::history::segment_is;
use crate::history::segments;
use crate::version::Version;
use crate::version::tag_str;

verus! {

/// The views of a run of lines.
pub open spec fn str_views(s: Seq<String>) -> Seq<Seq<char>> {
    s.map_values(|x: String| x@)
}

/// One changelog line for a commit: `" - <summary> - <email> (<id>)"`.
pub open spec fn commit_line(c: CommitView) -> Seq<char> {
    seq![' ', '-', ' '] + c.summary + seq![' ', '-', ' '] + c.author_email + seq![' ', '('] + c.id
        + seq![')']
}

/// The changelog lines of a run of commits, in order.
pub open spec fn commit_lines(cs: Seq<CommitView>) -> Seq<Seq<char>> {
    cs.map_values(|c: CommitView| commit_line(c))
}

/// The header line closing a segment: `"\n## <tag>"` of its upper bound,
/// or `"\n## wip"` for the untagged trailing segment.
pub open spec fn header_line(upper: Option<Version>) -> Seq<char> {
    seq!['\n', '#', '#', ' '] + match upper {
        Some(v) => tag_str(v),
        None => seq!['w', 'i', 'p'],
    }
}

/// The lines of segment `k`: one per commit, oldest first, then the header.
pub open spec fn seg_lines(h: History, k: int) -> Seq<Seq<char>> {
    commit_lines(seg_commit_views(h, k)) + seq![header_line(seg_upper(h, k))]
}

/// The lines of the first `k` segments, oldest segment first.
pub open spec fn changelog_fwd(h: History, k: int) -> Seq<Seq<char>>
    decreases k,
{
    if k <= 0 {
        Seq::empty()
    } else {
        changelog_fwd(h, k - 1) + seg_lines(h, k - 1)
    }
}

/// The whole changelog: every segment rendered oldest-first, then the
/// entire line sequence reversed, yielding a newest-on-top changelog.
pub open spec fn changelog_spec(h: History) -> Seq<Seq<char>> {
    changelog_fwd(h, seg_count(h)).reverse()
}

/// Format one commit as a changelog line.
pub fn commit_message(c: &Commit) -> (s: String)
    ensures
        s@ == commit_line(c@),
{
    let mut s = String::from_str(" - ");
    s.append(c.summary.as_str());
    s.append(" - ");
    s.append(c.author_email.as_str());
    s.append(" (");
    s.append(c.id.as_str());
    s.append(")");
    proof {
        reveal_strlit(" - ");
        reveal_strlit(" (");
        reveal_strlit(")");
        assert(s@ =~= commit_line(c@));
    }
    s
}

/// Format the header line for a segment's upper bound.
fn header_string(upper: Option<Version>) -> (s: String)
    ensures
        s@ == header_line(upper),
{
    let mut s = String::from_str("\n## ");
    match upper {
        Option::Some(v) => {
            let t = v.to_tag();
            s.append(t.as_str());
        },
        Option::None => {
            s.append("wip");
        },
    }
    proof {
        reveal_strlit("\n## ");
        reveal_strlit("wip");
        assert(s@ =~= header_line(upper));
    }
    s
}

/// Reverse a line list.
pub(crate) fn reverse_lines(lines: Vec<String>) -> (r: Vec<String>)
    ensures
        str_views(r@) == str_views(lines@).reverse(),
{
    let ghost orig = lines@;
    let mut lines = lines;
    let mut r: Vec<String> = Vec::new();
    while lines.len() > 0
        invariant
            lines@.len() + r@.len() == orig.len(),
            lines@ == orig.take(lines@.len() as int),
            forall|q: int| 0 <= q < r@.len() ==> #[trigger] r@[q] == orig[orig.len() - 1 - q],
        decreases lines@.len(),
    {
        let ghost before = lines@;
        match lines.pop() {
            Option::Some(x) => {
                proof {
                    assert(x == orig[lines@.len() as int]);
                    assert(lines@ =~= orig.take(lines@.len() as int));
                }
                r.push(x);
            },
            Option::None => {
                proof {
                    assert(false);
                }
            },
        }
    }
    proof {
        assert(str_views(r@).len() == str_views(orig).reverse().len());
        assert(str_views(r@) =~= str_views(orig).reverse());
    }
    r
}

/// Assemble the changelog, newest segment first.
pub fn changelog(h: &History) -> (r: Vec<String>)
    requires
        h.wf(),
    ensures
        str_views(r@) == changelog_spec(*h),
{
    let segs = segments(h);
    let mut lines: Vec<String> = Vec::new();
    let mut k: usize = 0;
    proof {
        assert(str_views(lines@) =~= changelog_fwd(*h, 0));
    }
    while k < segs.len()
        invariant
            h.wf(),
            segs@.len() == seg_count(*h),
            forall|m: int| 0 <= m < segs@.len() ==> segment_is(*h, m, #[trigger] segs@[m]),
            k <= segs@.len(),
            str_views(lines@) == changelog_fwd(*h, k as int),
        decreases segs@.len() - k,
    {
        let ghost scv = seg_commit_views(*h, k as int);
        let mut j: usize = 0;
        while j < segs[k].commits.len()
            invariant
                h.wf(),
                segs@.len() == seg_count(*h),
                forall|m: int| 0 <= m < segs@.len() ==> segment_is(*h, m, #[trigger] segs@[m]),
                k < segs@.len(),
                scv == seg_commit_views(*h, k as int),
                j <= segs@[k as int].commits@.len(),
                segs@[k as int].commits@.len() == scv.len(),
                str_views(lines@) == changelog_fwd(*h, k as int) + commit_lines(
                    scv.take(j as int),
                ),
            decreases segs@[k as int].commits@.len() - j,
        {
            let line = commit_message(&segs[k].commits[j]);
            proof {
                assert(segs@[k as int].commits@[j as int]@ == scv[j as int]);
            }
            let ghost prev = lines@;
            lines.push(line);
            proof {
                let fwd = changelog_fwd(*h, k as int);
                assert(str_views(prev).len() == prev.len());
                assert(commit_lines(scv.take(j as int)).len() == j);
                assert(commit_lines(scv.take(j + 1 as int)).len() == j + 1);
                assert(prev.len() == fwd.len() + j);
                assert(lines@ == prev.push(line));
                assert forall|m: int| 0 <= m < lines@.len() implies str_views(lines@)[m] == (fwd
                    + commit_lines(scv.take(j + 1 as int)))[m] by {
                    assert(str_views(lines@)[m] == lines@[m]@);
                    if m < prev.len() {
                        assert(lines@[m] == prev[m]);
                        assert(str_views(prev)[m] == (fwd + commit_lines(scv.take(j as int)))[m]);
                        if m >= fwd.len() {
                            let q = m - fwd.len();
                            assert(commit_lines(scv.take(j as int))[q] == commit_line(
                                scv.take(j as int)[q],
                            ));
                            assert(commit_lines(scv.take(j + 1 as int))[q] == commit_line(
                                scv.take(j + 1 as int)[q],
                            ));
                            assert(scv.take(j as int)[q] == scv[q]);
                            assert(scv.take(j + 1 as int)[q] == scv[q]);
                        }
                    } else {
                        assert(lines@[m] == line);
                        assert(commit_lines(scv.take(j + 1 as int))[j as int] == commit_line(
                            scv.take(j + 1 as int)[j as int],
                        ));
                        assert(scv.take(j + 1 as int)[j as int] == scv[j as int]);
                    }
                };
                assert(str_views(lines@).len() == lines@.len());
                assert(str_views(lines@) =~= fwd + commit_lines(scv.take(j + 1 as int)));
            }
            j = j + 1;
        }
        proof {
            assert(scv.take(scv.len() as int) =~= scv);
        }
        let hd = header_string(segs[k].upper);
        let ghost prev2 = lines@;
        lines.push(hd);
        proof {
            let fwd = changelog_fwd(*h, k as int);
            let cl = commit_lines(scv);
            assert(str_views(prev2) == fwd + cl);
            assert(str_views(prev2).len() == prev2.len());
            assert(cl.len() == scv.len());
            assert(lines@ == prev2.push(hd));
            assert(hd@ == header_line(seg_upper(*h, k as int)));
            assert(changelog_fwd(*h, k + 1 as int) == fwd + seg_lines(*h, k as int));
            assert forall|m: int| 0 <= m < lines@.len() implies str_views(lines@)[m] == (fwd
                + seg_lines(*h, k as int))[m] by {
                assert(str_views(lines@)[m] == lines@[m]@);
                if m < prev2.len() {
                    assert(lines@[m] == prev2[m]);
                    assert(str_views(prev2)[m] == (fwd + cl)[m]);
                    if m >= fwd.len() {
                        assert(seg_lines(*h, k as int)[m - fwd.len()] == (cl + seq![
                            header_line(seg_upper(*h, k as int)),
                        ])[m - fwd.len()]);
                    }
                } else {
                    assert(lines@[m] == hd);
                    assert(seg_lines(*h, k as int)[m - fwd.len()] == header_line(
                        seg_upper(*h, k as int),
                    ));
                }
            };
            assert(str_views(lines@).len() == lines@.len());
            assert(str_views(lines@) =~= changelog_fwd(*h, k + 1 as int));
        }
        k = k + 1;
    }
    reverse_lines(lines)
}

} // verus!
