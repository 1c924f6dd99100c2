//! The version command and the release orchestrator's decision: the
//! proposed next version, whether a release is needed, and the fixed
//! release commit message.
use vstd::prelude::*;

use crate::classify::bump;
use crate::classify::bump_spec;
use crate::history::History;
use crate::version::Version;
use crate::version::bump_fits;
use crate::version::next_version;
use crate::version::next_version_spec;
use crate::version::release_message;

verus! {

/// The release decision: the proposed next version, whether it differs
/// from the current one (no difference means no release is needed), and
/// the fixed message for the version-bump commit.
pub struct ReleasePlan {
    pub proposed: Version,
    pub needed: bool,
    pub commit_message: String,
}

/// The proposed next version: the current version moved by the aggregate
/// bump of the newest segment (with the head-tagged short-circuit).
pub fn version(current: &Version, h: &History) -> (r: Version)
    requires
        h.wf(),
        bump_fits(*current, bump_spec(*h)),
    ensures
        r == next_version_spec(*current, bump_spec(*h)),
{
    let b = bump(h);
    next_version(current, b)
}

/// Decide a release: compute the proposed version, whether it differs
/// from the current one, and the version-bump commit message
/// `"build: version bump to <tag> [skip ci]"`.
pub fn release(current: &Version, h: &History) -> (p: ReleasePlan)
    requires
        h.wf(),
        bump_fits(*current, bump_spec(*h)),
    ensures
        p.proposed == next_version_spec(*current, bump_spec(*h)),
        p.needed == (p.proposed != *current),
        p.commit_message@ == release_message(p.proposed),
{
    let proposed = version(current, h);
    let needed = !(proposed == *current);
    let mut msg = String::from_str("build: version bump to ");
    let t = proposed.to_tag();
    msg.append(t.as_str());
    msg.append(" [skip ci]");
    proof {
        assert(msg@ == release_message(proposed));
    }
    ReleasePlan { proposed, needed, commit_message: msg }
}

} // verus!
