//! The notes assembler: restricted to the single newest segment, its
//! commit lines plus a line naming the version, reversed so the version
//! marker comes first.
use vstd::prelude::*;

use crate::changelog::commit_line;
use crate::changelog::commit_lines;
use crate::changelog::commit_message;
use crate::changelog::reverse_lines;
use crate::changelog::str_views;
use crate::history::History;
use crate::history::commit_views;
use crate::history::head_tagged;
use crate::history::is_head_tagged;
use crate::history::seg_commit_views;
use crate::history::seg_count;
use crate::version::tag_str;

verus! {

/// The line naming the version: the most recent release tag when the head
/// bears it, else the literal `"HEAD"`.
pub open spec fn notes_version_line(h: History) -> Seq<char> {
    if head_tagged(h) {
        tag_str(h.tags@.last().version)
    } else {
        seq!['H', 'E', 'A', 'D']
    }
}

/// The release notes: the newest segment's commit lines followed by the
/// version line, the whole sequence reversed so the version comes first.
pub open spec fn notes_spec(h: History) -> Seq<Seq<char>> {
    (commit_lines(seg_commit_views(h, seg_count(h) - 1)) + seq![notes_version_line(h)]).reverse()
}

/// Assemble the release notes.
pub fn notes(h: &History) -> (r: Vec<String>)
    requires
        h.wf(),
    ensures
        str_views(r@) == notes_spec(*h),
{
    let n = h.tags.len();
    let clen = h.commits.len();
    let head_is_tagged = is_head_tagged(h);
    let lo = if head_is_tagged {
        if n >= 2 {
            proof {
                assert(h.tags@[n - 2].index <= h.tags@[n - 1].index);
                assert(h.tags@[n - 1].index < h.commits@.len());
            }
            h.tags[n - 2].index + 1
        } else {
            0
        }
    } else if n >= 1 {
        proof {
            assert(h.tags@[n - 1].index < h.commits@.len());
        }
        h.tags[n - 1].index + 1
    } else {
        0
    };
    let ghost kseg = seg_count(*h) - 1;
    let ghost cs = commit_views(h.commits@);
    proof {
        if head_is_tagged {
            assert(h.tags@.last() == h.tags@[n - 1]);
        }
        assert(seg_commit_views(*h, kseg) == cs.subrange(lo as int, clen as int));
    }
    let mut lines: Vec<String> = Vec::new();
    let mut i: usize = lo;
    proof {
        assert(commit_lines(cs.subrange(lo as int, lo as int)).len() == 0);
        assert(str_views(lines@) =~= commit_lines(cs.subrange(lo as int, lo as int)));
    }
    while i < clen
        invariant
            h.wf(),
            cs == commit_views(h.commits@),
            clen == h.commits@.len(),
            lo <= i <= clen,
            str_views(lines@) == commit_lines(cs.subrange(lo as int, i as int)),
        decreases clen - i,
    {
        let line = commit_message(&h.commits[i]);
        let ghost prev = lines@;
        lines.push(line);
        proof {
            assert(cs[i as int] == h.commits@[i as int]@);
            assert(str_views(prev).len() == prev.len());
            assert(commit_lines(cs.subrange(lo as int, i as int)).len() == i - lo);
            assert(commit_lines(cs.subrange(lo as int, i + 1 as int)).len() == i + 1 - lo);
            assert(lines@ == prev.push(line));
            assert forall|m: int| 0 <= m < lines@.len() implies str_views(lines@)[m]
                == commit_lines(cs.subrange(lo as int, i + 1 as int))[m] by {
                assert(str_views(lines@)[m] == lines@[m]@);
                assert(commit_lines(cs.subrange(lo as int, i + 1 as int))[m] == commit_line(
                    cs.subrange(lo as int, i + 1 as int)[m],
                ));
                assert(cs.subrange(lo as int, i + 1 as int)[m] == cs[lo + m]);
                if m < prev.len() {
                    assert(lines@[m] == prev[m]);
                    assert(str_views(prev)[m] == commit_lines(cs.subrange(lo as int, i as int))[m]);
                    assert(commit_lines(cs.subrange(lo as int, i as int))[m] == commit_line(
                        cs.subrange(lo as int, i as int)[m],
                    ));
                    assert(cs.subrange(lo as int, i as int)[m] == cs[lo + m]);
                } else {
                    assert(lines@[m] == line);
                }
            };
            assert(str_views(lines@).len() == lines@.len());
            assert(str_views(lines@) =~= commit_lines(cs.subrange(lo as int, i + 1 as int)));
        }
        i = i + 1;
    }
    let vline = if head_is_tagged {
        proof {
            assert(h.tags@.last() == h.tags@[n - 1]);
        }
        h.tags[n - 1].version.to_tag()
    } else {
        let s = String::from_str("HEAD");
        proof {
            reveal_strlit("HEAD");
            assert(s@ =~= seq!['H', 'E', 'A', 'D']);
        }
        s
    };
    let ghost prev2 = lines@;
    lines.push(vline);
    proof {
        assert(vline@ == notes_version_line(*h));
        let body = commit_lines(seg_commit_views(*h, kseg));
        assert(str_views(prev2) == body);
        assert(str_views(prev2).len() == prev2.len());
        assert(body.len() == seg_commit_views(*h, kseg).len());
        assert(lines@ == prev2.push(vline));
        assert forall|m: int| 0 <= m < lines@.len() implies str_views(lines@)[m] == (body + seq![
            notes_version_line(*h),
        ])[m] by {
            assert(str_views(lines@)[m] == lines@[m]@);
            if m < prev2.len() {
                assert(lines@[m] == prev2[m]);
                assert(str_views(prev2)[m] == body[m]);
            } else {
                assert(lines@[m] == vline);
            }
        };
        assert(str_views(lines@).len() == lines@.len());
        assert(str_views(lines@) =~= body + seq![notes_version_line(*h)]);
    }
    let r = reverse_lines(lines);
    r
}

} // verus!
