use semantic_release::Bump;
use semantic_release::changelog::changelog;
use semantic_release::classify::{aggregate, bump, classify, commit_bump};
use semantic_release::history::{Commit, History, Tag, is_head_tagged, segments, versions};
use semantic_release::notes::notes;
use semantic_release::release::{release, version};
use semantic_release::version::{Version, next_version};

fn commit(id: &str, summary: &str, message: &str) -> Commit {
    Commit {
        id: id.to_string(),
        summary: summary.to_string(),
        author_email: "info@tomhoward.codes".to_string(),
        message: message.to_string(),
    }
}

fn simple(id: &str, message: &str) -> Commit {
    // A commit whose summary is its message's first line, as history
    // providers report it.
    let summary = message.lines().next().unwrap_or("");
    commit(id, summary, message)
}

fn history(messages: &[&str], tags: &[(u64, u64, u64, usize)]) -> History {
    let commits: Vec<Commit> = messages
        .iter()
        .enumerate()
        .map(|(i, m)| simple(&format!("c{}", i), m))
        .collect();
    let tags: Vec<Tag> = tags
        .iter()
        .map(|&(ma, mi, pa, index)| Tag { version: Version::new(ma, mi, pa), index })
        .collect();
    History::new(commits, tags).unwrap()
}

#[test]
fn test_bump() {
    let h = history(&["Initial Commit"], &[]);
    assert_eq!(bump(&h), Bump::Nothing);

    let h = history(&["Initial Commit", "feat: better intro"], &[]);
    assert_eq!(bump(&h), Bump::Minor);

    let h = history(
        &["Initial Commit", "feat: better intro", "feat: best intro\nBREAKING CHANGE"],
        &[],
    );
    assert_eq!(bump(&h), Bump::Major);
}

#[test]
fn test_changelog() {
    let h = history(&["Initial commit"], &[]);
    assert_eq!(changelog(&h).len(), 2);
}

#[test]
fn test_notes() {
    let h = history(&["Initial Commit"], &[]);
    let n = notes(&h);
    assert_eq!(n.len(), 2);
    assert!(n.contains(&"HEAD".to_string()));
}

#[test]
fn test_update_rust() {
    let current =
        semantic_release::languages::rust::get("[package]\nversion=\"0.1.0\"").unwrap();
    let h = history(&["Initial Commit"], &[]);
    let v1 = version(&current, &h);
    assert_eq!(v1, current);

    let h = history(&["Initial Commit", "feat: just wow"], &[]);
    let v2 = version(&current, &h);
    assert_ne!(v1, v2);
}

#[test]
fn test_versions() {
    let h = history(&["Hello world."], &[]);
    assert_eq!(versions(&h), vec![]);

    let h = history(&["Hello world."], &[(0, 1, 0, 0)]);
    assert_eq!(versions(&h).len(), 1);

    let h = history(
        &["Hello world.", "Hello world, again."],
        &[(0, 1, 0, 0), (0, 1, 1, 1)],
    );
    assert_eq!(versions(&h).len(), 2);
    assert_eq!(versions(&h), vec![Version::new(0, 1, 0), Version::new(0, 1, 1)]);

    let h = history(
        &["Hello world.", "Hello world, again.", "Hello moon."],
        &[(0, 1, 0, 0), (0, 1, 1, 1), (0, 2, 0, 2)],
    );
    assert_eq!(versions(&h).len(), 3);
    assert_eq!(
        versions(&h),
        vec![Version::new(0, 1, 0), Version::new(0, 1, 1), Version::new(0, 2, 0)]
    );
}

#[test]
fn test_versions_sorted_from_any_order() {
    // Tags listed out of order come back sorted ascending by version.
    let h = history(
        &["a", "b", "c"],
        &[(0, 2, 0, 2), (0, 1, 0, 0), (0, 1, 1, 1)],
    );
    assert_eq!(
        versions(&h),
        vec![Version::new(0, 1, 0), Version::new(0, 1, 1), Version::new(0, 2, 0)]
    );
}

#[test]
fn test_walkers() {
    // One commit, untagged: the sole segment covers full history.
    let h = history(&["initial commit"], &[]);
    let segs = segments(&h);
    assert_eq!(segs.len(), 1);
    assert_eq!(segs[0].commits.len(), 1);

    // Two commits, untagged.
    let h = history(&["initial commit", "build: bob"], &[]);
    let segs = segments(&h);
    assert_eq!(segs.len(), 1);
    assert_eq!(segs[0].commits.len(), 2);

    // Head tagged v0.1.0: still one segment, both commits in it.
    let h = history(&["initial commit", "build: bob"], &[(0, 1, 0, 1)]);
    let segs = segments(&h);
    assert_eq!(segs.len(), 1);
    assert_eq!(segs[0].commits.len(), 2);

    // A commit after the tag: ..v0.1.0 and v0.1.0..HEAD, 2 + 1 commits.
    let h = history(
        &["initial commit", "build: bob", "build: version bump"],
        &[(0, 1, 0, 1)],
    );
    let segs = segments(&h);
    assert_eq!(segs.len(), 2);
    assert_eq!(segs[1].commits.len(), 1);

    // Head tagged v0.1.1: ..v0.1.0 and v0.1.0..v0.1.1.
    let h = history(
        &["initial commit", "build: bob", "build: version bump"],
        &[(0, 1, 0, 1), (0, 1, 1, 2)],
    );
    let segs = segments(&h);
    assert_eq!(segs.len(), 2);

    // One more commit: ..v0.1.0, v0.1.0..v0.1.1, v0.1.1..HEAD.
    let h = history(
        &["initial commit", "build: bob", "build: version bump", "build: version bump"],
        &[(0, 1, 0, 1), (0, 1, 1, 2)],
    );
    let segs = segments(&h);
    assert_eq!(segs.len(), 3);

    // Head tagged v0.1.2: still three segments.
    let h = history(
        &["initial commit", "build: bob", "build: version bump", "build: version bump"],
        &[(0, 1, 0, 1), (0, 1, 1, 2), (0, 1, 2, 3)],
    );
    let segs = segments(&h);
    assert_eq!(segs.len(), 3);
}

#[test]
fn test_segment_bounds() {
    let h = history(&["a", "b", "c"], &[(0, 1, 0, 1)]);
    let segs = segments(&h);
    assert_eq!(segs.len(), 2);
    assert_eq!(segs[0].lower, None);
    assert_eq!(segs[0].upper, Some(Version::new(0, 1, 0)));
    assert_eq!(segs[0].commits.len(), 2);
    assert_eq!(segs[1].lower, Some(Version::new(0, 1, 0)));
    assert_eq!(segs[1].upper, None);
    assert_eq!(segs[1].commits.len(), 1);
}

#[test]
fn test_history_rejects_bad_tags() {
    // A higher version on an older commit cannot stand.
    let commits = vec![simple("c0", "a"), simple("c1", "b")];
    let tags = vec![
        Tag { version: Version::new(0, 1, 0), index: 1 },
        Tag { version: Version::new(0, 2, 0), index: 0 },
    ];
    assert!(History::new(commits, tags).is_none());

    // A tag pointing outside the history is rejected.
    let commits = vec![simple("c0", "a")];
    let tags = vec![Tag { version: Version::new(0, 1, 0), index: 3 }];
    assert!(History::new(commits, tags).is_none());
}

#[test]
fn test_empty_segment_between_tags() {
    // Two release tags on one commit: the later tag's segment is valid
    // and empty — a header with no body lines.
    let h = history(&["a", "b"], &[(0, 1, 0, 1), (0, 2, 0, 1)]);
    let segs = segments(&h);
    assert_eq!(segs.len(), 2);
    assert_eq!(segs[0].commits.len(), 2);
    assert_eq!(segs[1].commits.len(), 0);
    let log = changelog(&h);
    assert_eq!(log[0], "\n## v0.2.0");
    assert_eq!(log[1], "\n## v0.1.0");
}

#[test]
fn test_segments_partition_concrete() {
    // Every commit lies in exactly one segment, in history order.
    let h = history(&["a", "b", "c", "d"], &[(0, 1, 0, 1), (0, 2, 0, 2)]);
    let segs = segments(&h);
    let gathered: Vec<String> = segs
        .iter()
        .flat_map(|s| s.commits.iter().map(|c| c.id.clone()))
        .collect();
    assert_eq!(gathered, vec!["c0", "c1", "c2", "c3"]);
}

#[test]
fn test_classify_table() {
    assert_eq!(classify("feat: shiny"), Bump::Minor);
    assert_eq!(classify("feat(parser): shiny"), Bump::Minor);
    assert_eq!(classify("fix: broken"), Bump::Patch);
    assert_eq!(classify("fix(a b): broken"), Bump::Patch);
    assert_eq!(classify("test: cover"), Bump::Prerelease);
    assert_eq!(classify("build: things"), Bump::Prerelease);
    assert_eq!(classify("chore: sweep"), Bump::Prerelease);
    assert_eq!(classify("ci: wire"), Bump::Prerelease);
    assert_eq!(classify("docs: explain"), Bump::Prerelease);
    assert_eq!(classify("perf: faster"), Bump::Prerelease);
    assert_eq!(classify("refactor: tidy"), Bump::Prerelease);
    assert_eq!(classify("revert: undo"), Bump::Prerelease);
    assert_eq!(classify("style: neat"), Bump::Prerelease);
    assert_eq!(classify("Initial Commit"), Bump::Nothing);
    assert_eq!(classify("Build: things"), Bump::Nothing);
    assert_eq!(classify(""), Bump::Nothing);
}

#[test]
fn test_classify_details() {
    // The marker anywhere beats any type keyword.
    assert_eq!(classify("feat: best intro\nBREAKING CHANGE"), Bump::Major);
    assert_eq!(classify("BREAKING CHANGE"), Bump::Major);
    // Anchored at a line start: an embedded keyword does not count...
    assert_eq!(classify("prefix: y"), Bump::Nothing);
    // ...but a later line's start does.
    assert_eq!(classify("stuff\nfix: y"), Bump::Patch);
    // No space after the colon, empty text, or an empty scope fail.
    assert_eq!(classify("feat:x"), Bump::Nothing);
    assert_eq!(classify("feat: "), Bump::Nothing);
    assert_eq!(classify("feat(): x"), Bump::Nothing);
    // The loudest of several matching rules wins.
    assert_eq!(classify("fix: a\nfeat: b"), Bump::Minor);
    // A pure function of the message: the same text always classifies
    // the same way.
    assert_eq!(classify("feat: twice"), classify("feat: twice"));
}

#[test]
fn test_commit_bump_reads_full_message() {
    let c = commit("c9", "feat: summary line", "feat: summary line\n\nBREAKING CHANGE");
    assert_eq!(commit_bump(&c), Bump::Major);
}

#[test]
fn test_aggregate() {
    // The empty run aggregates to the identity element.
    assert_eq!(aggregate(&vec![]), Bump::Nothing);
    let run = vec![simple("c0", "fix: a"), simple("c1", "docs: b")];
    assert_eq!(aggregate(&run), Bump::Patch);
    // Adding a commit never lowers the aggregate.
    let mut more = run.clone();
    more.push(simple("c2", "chore: c"));
    assert_eq!(aggregate(&more), Bump::Patch);
    more.push(simple("c3", "feat: d"));
    assert_eq!(aggregate(&more), Bump::Minor);
}

#[test]
fn test_next_version_rules() {
    // The zero-major convention: Major on 0.x bumps the minor.
    assert_eq!(next_version(&Version::new(0, 1, 0), Bump::Major), Version::new(0, 2, 0));
    assert_eq!(next_version(&Version::new(1, 1, 0), Bump::Major), Version::new(2, 0, 0));
    assert_eq!(next_version(&Version::new(1, 2, 3), Bump::Minor), Version::new(1, 3, 0));
    assert_eq!(next_version(&Version::new(1, 2, 3), Bump::Patch), Version::new(1, 2, 4));
    assert_eq!(next_version(&Version::new(1, 2, 3), Bump::Prerelease), Version::new(1, 2, 3));
    assert_eq!(next_version(&Version::new(1, 2, 3), Bump::Nothing), Version::new(1, 2, 3));
}

#[test]
fn test_version_unchanged_without_qualifying_commits() {
    // No qualifying commit: the proposed version is the current one, for
    // any current version.
    let h = history(&["Initial Commit"], &[]);
    for v in [Version::new(0, 1, 0), Version::new(7, 0, 9)] {
        assert_eq!(version(&v, &h), v);
    }
}

#[test]
fn test_fresh_project_end_to_end() {
    // One non-conventional commit on a project stored at 0.1.0: the
    // version stays, and the changelog is one wip header and one line.
    let current =
        semantic_release::languages::get(None, Some("[package]\nversion=\"0.1.0\"")).unwrap();
    assert_eq!(current, Version::new(0, 1, 0));
    let h = history(&["Initial Commit"], &[]);
    assert_eq!(version(&current, &h), Version::new(0, 1, 0));
    let log = changelog(&h);
    assert_eq!(
        log,
        vec![
            "\n## wip".to_string(),
            " - Initial Commit - info@tomhoward.codes (c0)".to_string(),
        ]
    );
}

#[test]
fn test_feat_bumps_minor_end_to_end() {
    let current = Version::new(0, 1, 0);
    let h = history(&["Initial Commit", "feat: x"], &[]);
    assert_eq!(version(&current, &h), Version::new(0, 2, 0));
}

#[test]
fn test_release_flow() {
    // Tag v0.1.0, then "fix: y": the release stores 0.1.1, commits with
    // the fixed message, and the regenerated changelog opens with the new
    // section.
    let stored = "[package]\nversion=\"0.1.0\"";
    let current = semantic_release::languages::rust::get(stored).unwrap();
    let h = history(&["Initial Commit", "fix: y"], &[(0, 1, 0, 0)]);
    let plan = release(&current, &h);
    assert!(plan.needed);
    assert_eq!(plan.proposed, Version::new(0, 1, 1));
    assert_eq!(plan.commit_message, "build: version bump to v0.1.1 [skip ci]");

    // The metadata write sticks.
    let written = semantic_release::languages::rust::put(stored, &plan.proposed).unwrap();
    assert_eq!(
        semantic_release::languages::rust::get(&written),
        Some(Version::new(0, 1, 1))
    );

    // After the bump commit is created and tagged, the changelog opens
    // with the released section.
    let h = history(
        &["Initial Commit", "fix: y", "build: version bump to v0.1.1 [skip ci]"],
        &[(0, 1, 0, 0), (0, 1, 1, 2)],
    );
    let log = changelog(&h);
    assert_eq!(log[0], "\n## v0.1.1");
    assert!(log.iter().any(|l| l.starts_with(" - fix: y - ")));
}

#[test]
fn test_no_release_needed() {
    let current = Version::new(0, 1, 0);
    let h = history(&["Initial Commit"], &[]);
    let plan = release(&current, &h);
    assert!(!plan.needed);
    assert_eq!(plan.proposed, current);
}

#[test]
fn test_head_tagged_short_circuit() {
    // The head bears the latest tag: the bump is the none level even
    // though a released commit classifies as Major.
    let h = history(
        &["feat: x\nBREAKING CHANGE", "fix: y"],
        &[(1, 0, 0, 1)],
    );
    assert!(is_head_tagged(&h));
    assert_eq!(bump(&h), Bump::Nothing);
}

#[test]
fn commands_test_changelog() {
    // A lone non-conventional commit: the changelog output starts with
    // the wip header and the commit's line.
    let h = History::new(
        vec![commit("c0", "not conventional", "not conventional")],
        vec![],
    )
    .unwrap();
    let log = changelog(&h);
    let text = log.join("\n");
    assert!(text.starts_with("\n## wip\n - not conventional "));
}

#[test]
fn test_notes_content() {
    // Untagged work: the version marker is HEAD and comes first.
    let h = history(&["Title", "fix: y"], &[(0, 1, 0, 0)]);
    let n = notes(&h);
    assert_eq!(n[0], "HEAD");
    assert!(n[1].starts_with(" - fix: y - "));

    // Head tagged: the marker is the latest tag, over that tag's segment.
    let h = history(&["Title", "fix: y"], &[(0, 1, 0, 1)]);
    let n = notes(&h);
    assert_eq!(n[0], "v0.1.0");
}

#[test]
fn test_bump_label() {
    assert_eq!(Bump::Nothing.label(), "none");
    assert_eq!(Bump::Prerelease.label(), "prerelease");
    assert_eq!(Bump::Patch.label(), "patch");
    assert_eq!(Bump::Minor.label(), "minor");
    assert_eq!(Bump::Major.label(), "major");
}
