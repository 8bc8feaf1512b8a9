//! What is made of a repository's answers.
use asd::git::commit::{CommitInfo, ObjectId, ReadError};
use asd::git::diff::{Algorithm, CommitDiff, DiffLine, FileChange, FileDiff, MAX_DIFF_LINES};
use asd::git::graph::{CellType, GraphBuilder};
use asd::git::refs::{group_refs, refs_at, RefInfo, RefKind};
use asd::git::repo::{
    can_total, count_changes, is_wanted, ChangeRow, Counted, Discovery, FileContent, OpenError,
    RefListings, Repo, TreeChange,
};
use asd::git::working::{
    file_stat, is_repository_relative, sides_of, within_limit, Source, StatusEntry, WorktreeEntry,
    WorktreeStage, MAX_FILE_BYTES,
};

/// The name of the n-th object.
fn id(n: u64) -> ObjectId {
    ObjectId {
        high: 0,
        middle: n,
        low: 0,
    }
}

/// A commit with the given parents.
fn commit(n: u64, parents: &[u64], summary: &str) -> CommitInfo {
    CommitInfo {
        id: id(n),
        parents: parents.iter().map(|p| id(*p)).collect(),
        summary: summary.to_string(),
        body: String::new(),
        author: "asd test".to_string(),
        time: 1_700_000_000 + n as i64,
    }
}

/// An open repository.
fn repo() -> Repo {
    Repo::open("/r", Discovery::WorkTree("/r".into())).unwrap()
}

/// A file of a commit's tree diff.
fn changed(path: &str, change: FileChange, counted: Counted) -> ChangeRow {
    ChangeRow::of_tree(TreeChange {
        is_blob: true,
        path: path.to_string(),
        change,
        counted,
    })
}

/// Both sides of a text file.
fn texts(before: &str, after: &str) -> Counted {
    Counted::Text {
        algorithm: Algorithm::Myers,
        before: before.as_bytes().to_vec(),
        after: after.as_bytes().to_vec(),
    }
}

/// What one file's diff shows.
fn file_diff(before: &str, after: &str, context: u32) -> FileDiff {
    repo()
        .file_diff(
            "a.txt",
            context,
            Some(FileContent::Text {
                algorithm: Algorithm::Myers,
                before: before.as_bytes().to_vec(),
                after: after.as_bytes().to_vec(),
            }),
            Ok(()),
        )
        .unwrap()
}

/// How many lines a diff adds and removes.
fn totals(d: &FileDiff) -> (u32, u32) {
    let added = d
        .lines
        .iter()
        .filter(|l| matches!(l, DiffLine::Added { .. }))
        .count();
    let removed = d
        .lines
        .iter()
        .filter(|l| matches!(l, DiffLine::Removed { .. }))
        .count();
    (added as u32, removed as u32)
}

/// The commit diff of a text file that went from one content to another.
fn diff_of(change: FileChange, before: &str, after: &str) -> CommitDiff {
    repo()
        .commit_diff(Ok(vec![changed("a.txt", change, texts(before, after))]))
        .unwrap()
}

#[test]
fn a_first_commit_reports_every_file_as_added() {
    let d = diff_of(FileChange::Added, "", "one\ntwo\n");
    assert_eq!(d.files.len(), 1, "{:?}", d.files);
    assert_eq!(d.files[0].path, "a.txt");
    assert_eq!(d.files[0].change, FileChange::Added);
    assert_eq!(d.files[0].insertions, 2);
    assert_eq!(d.files[0].removals, 0);
    assert_eq!((d.insertions, d.removals), (2, 0));
}

#[test]
fn a_modification_counts_both_directions() {
    let d = diff_of(
        FileChange::Modified,
        "one\ntwo\nthree\n",
        "one\nTWO\nthree\nfour\n",
    );
    assert_eq!(d.files.len(), 1);
    assert_eq!(d.files[0].change, FileChange::Modified);
    // one line replaced (+1/-1) and one appended (+1)
    assert_eq!((d.files[0].insertions, d.files[0].removals), (2, 1));
}

#[test]
fn a_deletion_is_reported_as_deleted() {
    let d = diff_of(FileChange::Deleted, "one\n", "");
    assert_eq!(d.files.len(), 1);
    assert_eq!(d.files[0].change, FileChange::Deleted);
    assert_eq!((d.files[0].insertions, d.files[0].removals), (0, 1));
}

#[test]
fn directories_are_not_counted_as_files() {
    let tree = |path: &str| {
        ChangeRow::of_tree(TreeChange {
            is_blob: false,
            path: path.to_string(),
            change: FileChange::Added,
            counted: texts("1\n2\n", "3\n"),
        })
    };
    let d = repo()
        .commit_diff(Ok(vec![
            tree("deep"),
            tree("deep/er"),
            changed("deep/er/b.txt", FileChange::Added, texts("", "x\n")),
        ]))
        .unwrap();
    let paths: Vec<_> = d.files.iter().map(|f| f.path.as_str()).collect();
    assert_eq!(
        paths,
        ["deep/er/b.txt"],
        "directories leaked into the file list"
    );
    assert_eq!((d.insertions, d.removals), (1, 0));
}

#[test]
fn a_binary_file_is_flagged_rather_than_counted() {
    let d = repo()
        .commit_diff(Ok(vec![changed(
            "b.bin",
            FileChange::Added,
            Counted::Binary,
        )]))
        .unwrap();
    let bin = d
        .files
        .iter()
        .find(|f| f.path == "b.bin")
        .expect("binary listed");
    assert!(bin.binary, "binary file must be flagged");
    assert_eq!(
        (bin.insertions, bin.removals),
        (0, 0),
        "no line counts for a binary"
    );
}

/// The rendered shape of a diff, one character per line kind: `.` context, `+`
/// added, `-` removed.
fn shape(d: &FileDiff) -> String {
    d.lines
        .iter()
        .map(|l| match l {
            DiffLine::Context { .. } => '.',
            DiffLine::Added { .. } => '+',
            DiffLine::Removed { .. } => '-',
        })
        .collect()
}

#[test]
fn a_modified_file_yields_numbered_lines_with_context() {
    let d = file_diff(
        "1\n2\n3\n4\n5\n6\n7\n8\n9\n",
        "1\n2\n3\n4\nFIVE\n6\n7\n8\n9\n",
        2,
    );

    assert_eq!(d.path, "a.txt");
    assert!(!d.binary);
    // Two context lines each side of a one-line replacement.
    assert_eq!(shape(&d), "..-+..");

    // Numbers are the real file line numbers, from one.
    match &d.lines[0] {
        DiffLine::Context { old, new, text } => {
            assert_eq!((*old, *new), (3, 3));
            assert_eq!(text, "3");
        }
        other => panic!("expected context, got {other:?}"),
    }
    match &d.lines[2] {
        DiffLine::Removed { old, text } => {
            assert_eq!(*old, 5);
            assert_eq!(text, "5");
        }
        other => panic!("expected removal, got {other:?}"),
    }
    match &d.lines[3] {
        DiffLine::Added { new, text } => {
            assert_eq!(*new, 5);
            assert_eq!(text, "FIVE");
        }
        other => panic!("expected addition, got {other:?}"),
    }
}

#[test]
fn context_zero_yields_only_changed_lines() {
    let d = file_diff("1\n2\n3\n", "1\nTWO\n3\n", 0);
    assert_eq!(shape(&d), "-+");
}

#[test]
fn a_file_absent_from_the_commit_is_an_error_not_an_empty_diff() {
    let err = repo()
        .file_diff("nope.txt", 3, None, Ok(()))
        .expect_err("a path the commit did not touch has no diff");
    assert!(err.0.contains("nope.txt"), "{err:?}");
}

#[test]
fn a_binary_file_reports_binary_rather_than_lines() {
    let d = repo()
        .file_diff("b.bin", 3, Some(FileContent::Binary), Ok(()))
        .unwrap();
    assert!(d.binary);
    assert!(d.lines.is_empty(), "{:?}", d.lines);
}

#[test]
fn numbering_stays_in_sync_across_hunks_that_change_the_length() {
    let before: String = (1..=20).map(|i| format!("{i}\n")).collect();
    let after: String = (1..=20)
        .filter(|i| !matches!(i, 2 | 3))
        .map(|i| {
            if i == 15 {
                "FIFTEEN\n".to_string()
            } else {
                format!("{i}\n")
            }
        })
        .collect();

    let d = file_diff(&before, &after, 2);

    assert_eq!(shape(&d), ".--....-+..");
    let numbered: Vec<(char, u32, u32)> = d
        .lines
        .iter()
        .map(|l| match l {
            DiffLine::Context { old, new, .. } => ('.', *old, *new),
            DiffLine::Added { new, .. } => ('+', 0, *new),
            DiffLine::Removed { old, .. } => ('-', *old, 0),
        })
        .collect();
    assert_eq!(
        numbered,
        [
            ('.', 1, 1),
            ('-', 2, 0),
            ('-', 3, 0),
            ('.', 4, 2),
            ('.', 5, 3),
            // The elided middle of the file: the next hunk resumes at the
            // real line numbers on both sides, not at a hunk offset.
            ('.', 13, 11),
            ('.', 14, 12),
            ('-', 15, 0),
            ('+', 0, 13),
            ('.', 16, 14),
            ('.', 17, 15),
        ]
    );
}

/// A diff the way `git diff` renders its hunk bodies.
fn rendered(d: &FileDiff) -> Vec<String> {
    d.lines
        .iter()
        .map(|l| match l {
            DiffLine::Context { text, .. } => format!(" {text}"),
            DiffLine::Added { text, .. } => format!("+{text}"),
            DiffLine::Removed { text, .. } => format!("-{text}"),
        })
        .collect()
}

#[test]
fn hunks_close_together_render_exactly_like_git() {
    // (description, changed lines, context, what `git diff -Un` prints)
    let cases: [(&str, &[usize], u32, &str); 4] = [
        (
            "one unchanged line between two hunks",
            &[3, 5],
            2,
            " 1, 2,-3,+X3, 4,-5,+X5, 6, 7",
        ),
        (
            "exactly `context` unchanged lines between",
            &[3, 6],
            2,
            " 1, 2,-3,+X3, 4, 5,-6,+X6, 7, 8",
        ),
        (
            "context wide enough to span the later hunk",
            &[3, 5],
            5,
            " 1, 2,-3,+X3, 4,-5,+X5, 6, 7, 8, 9, 10",
        ),
        (
            "three changes in a row",
            &[3, 5, 7],
            2,
            " 1, 2,-3,+X3, 4,-5,+X5, 6,-7,+X7, 8, 9",
        ),
    ];
    for (what, edits, context, expected) in cases {
        let before: String = (1..=12).map(|i| format!("{i}\n")).collect();
        let after: String = (1..=12)
            .map(|i| {
                if edits.contains(&i) {
                    format!("X{i}\n")
                } else {
                    format!("{i}\n")
                }
            })
            .collect();

        let d = file_diff(&before, &after, context);
        assert_eq!(
            rendered(&d).join(","),
            expected,
            "{what}: shape {} does not match git",
            shape(&d)
        );

        // A duplicated line also walks the numbering backwards, so pin that
        // separately: each side's numbers strictly increase.
        let (mut last_old, mut last_new) = (0u32, 0u32);
        for line in &d.lines {
            let (old, new) = match line {
                DiffLine::Context { old, new, .. } => (Some(*old), Some(*new)),
                DiffLine::Added { new, .. } => (None, Some(*new)),
                DiffLine::Removed { old, .. } => (Some(*old), None),
            };
            if let Some(old) = old {
                assert!(old > last_old, "{what}: old went {last_old} -> {old}");
                last_old = old;
            }
            if let Some(new) = new {
                assert!(new > last_new, "{what}: new went {last_new} -> {new}");
                last_new = new;
            }
        }
    }
}

/// A deterministic file of repetitive, source-like lines.
fn repetitive(seed: u64, lines: usize) -> Vec<String> {
    const TOKENS: [&str; 6] = [
        "}",
        "",
        "    return;",
        "    if (x) {",
        "        y += 1;",
        "    // step",
    ];
    let mut state = seed.wrapping_mul(0x9E37_79B9_7F4A_7C15).wrapping_add(1);
    let mut next = || {
        state = state
            .wrapping_mul(6_364_136_223_846_793_005)
            .wrapping_add(1_442_695_040_888_963_407);
        (state >> 33) as usize
    };
    (0..lines)
        .map(|_| TOKENS[next() % TOKENS.len()].to_string())
        .collect()
}

/// Delete, replace or add to every third-ish line, so the two sides differ
/// everywhere rather than in one block.
fn edited(seed: u64, before: &[String]) -> Vec<String> {
    let mut state = seed.wrapping_mul(0xD1B5_4A32_D192_ED03).wrapping_add(7);
    let mut next = || {
        state = state
            .wrapping_mul(6_364_136_223_846_793_005)
            .wrapping_add(1_442_695_040_888_963_407);
        (state >> 33) as usize
    };
    let mut out = Vec::with_capacity(before.len());
    for line in before {
        match next() % 10 {
            0 => {}                                       // deleted
            1 => out.push("        z -= 1;".to_string()), // replaced
            2 => {
                out.push(line.clone());
                out.push("    // inserted".to_string());
            }
            _ => out.push(line.clone()),
        }
    }
    out
}

/// Both sides of the repetitive file of a seed.
fn repetitive_sides(seed: u64) -> (String, String) {
    let before = repetitive(seed, 300);
    let after = edited(seed, &before);
    (
        before.iter().map(|l| format!("{l}\n")).collect(),
        after.iter().map(|l| format!("{l}\n")).collect(),
    )
}

/// A number that tells texts apart.
fn fingerprint(text: &str) -> u64 {
    text.bytes().fold(0xcbf2_9ce4_8422_2325, |h, b| {
        (h ^ u64::from(b)).wrapping_mul(0x100_0000_01b3)
    })
}

/// What `git diff -U3` prints for the repetitive file of each seed: the shape of
/// its rows, and the fingerprint of their text.
const GIT_SAYS: [(&str, u64); 4] = [
    (
        "..-+.....+.+..-.-+.....+..+.+..-+....-+.+...--......+......-+...+...-++..-++....\
         .+.....-...-+..-+...--++...--+..-.+.+...+..-+......-+.-.+.+...--++.+...-+......+\
         .-....-.+...-+......+.....--....-+..-+..-..+..--.+...-+..-+......-.+..-+......-+\
         .-+..+..-.-++.-....--+.+...--.+.-.-+.....--+..-++......+......-+......-......+..\
         -+..+...-+.+..+..+..-++.-+..+...-..",
        0xef99_ff44_212b_f731,
    ),
    (
        ".+...-+......+.....-......-+....+.--+......+....-.+.---+.-.---+.++...-+....--+++\
         .+..-......+..-.+...-.....+......-+......-+.+.....-+.-+..-+.-..-+......+....--+.\
         .....+..-.-....-.-+......-+....-+...-+...+......+....+.---++......+....-......-.\
         ....+..+.+....-...-..--...-...-+...-++.-+....+......+......-.....-++.-..+...-+..\
         ..+...-+.",
        0xa816_947c_dc43_41b1,
    ),
    (
        "...-+...-++......+...-..-+..-+.-+.+....--+++.-+......+.-+..+..--+......-.-+..++.\
         --+..-+.....+......+....-.--.+..-+++..-...-....-+...--+......+..-+......+......+\
         ..-..+..-+....+.--+...--++.-......-+......-.....+..-+......-...-+....-+.-+..-+..\
         ..+......+....+..--+.+..+...+....--++.....-+....+.+...+...-..+.+.-..+......-+.+.\
         .-+..--.+...+...",
        0x45fc_9e9c_6be2_755c,
    ),
    (
        "...+....--++..-++.+....--+..+..-+..+...+...-....+.+.-+...-...-....+.-......-+...\
         ..-+..-....-+.-+...-+.....+......+...+..-......-.-+..+.-.....-+.--++.--+..-+...-\
         +....-+.--++......-+......-......+.-.-.....-.+.....+....-+......+.-.+....--++..-\
         -++.-...+....+.+....-......+.....--+.+......+...---+......-+....-+....+.-...+...\
         ...--+....+.",
        0x2cce_fb60_eeed_bbd4,
    ),
];

#[test]
fn a_repetitive_file_renders_exactly_like_git() {
    for seed in 1..=4u64 {
        let (before, after) = repetitive_sides(seed);
        let d = file_diff(&before, &after, 3);
        let (rows, text) = GIT_SAYS[seed as usize - 1];
        assert_eq!(
            shape(&d),
            rows,
            "seed {seed}: our diff of a repetitive file is not git's"
        );
        assert_eq!(
            fingerprint(&rendered(&d).join("\n")),
            text,
            "seed {seed}: the rows of a repetitive file are not git's"
        );
    }
}

#[test]
fn the_pane_count_and_the_rendered_diff_agree() {
    for seed in 1..=4u64 {
        let (before, after) = repetitive_sides(seed);
        let commit = diff_of(FileChange::Modified, &before, &after);
        let stat = commit.files.iter().find(|f| f.path == "a.txt").unwrap();
        let d = file_diff(&before, &after, 3);
        assert!(!d.truncated, "seed {seed}: the fixture must fit");
        assert_eq!(
            totals(&d),
            (stat.insertions, stat.removals),
            "seed {seed}: the pane counts and the viewer's lines disagree"
        );
    }
}

#[test]
fn an_unreadable_blob_is_an_error_rather_than_a_binary_file() {
    let cause = "could not decode a loose object";
    // The walk was cut short by the failure, which is reported ahead of it.
    let Err(err) = repo().file_diff(
        "a.txt",
        2,
        Some(FileContent::ReadFailed(cause.into())),
        Err(ReadError("the walk was cancelled".into())),
    ) else {
        panic!("a corrupt blob must not read as a binary file");
    };
    assert!(
        err.0.contains("loose object"),
        "the real cause was swallowed: {err:?}"
    );
    assert!(
        !err.0.contains("cancelled"),
        "a cancellation leaked out instead of the cause: {err:?}"
    );

    let d = repo()
        .commit_diff(Ok(vec![changed(
            "a.txt",
            FileChange::Modified,
            Counted::ReadFailed(cause.into()),
        )]))
        .expect("the commit is still readable");
    let stat = d.files.iter().find(|f| f.path == "a.txt").unwrap();
    assert!(!stat.binary, "a corrupt blob is not a binary file");
    let why = stat
        .unreadable
        .as_deref()
        .expect("the row is marked unreadable");
    assert!(
        why.contains("loose object"),
        "the cause was swallowed: {why}"
    );
}

#[test]
fn one_unreadable_file_does_not_hide_the_rest_of_the_commit() {
    let d = repo()
        .commit_diff(Ok(vec![
            changed(
                "a.txt",
                FileChange::Modified,
                Counted::ReadFailed("bad object".into()),
            ),
            changed("b.txt", FileChange::Modified, texts("x\n", "x\ny\n")),
        ]))
        .expect("one bad blob must not fail the commit");

    let paths: Vec<&str> = d.files.iter().map(|f| f.path.as_str()).collect();
    assert_eq!(paths, ["a.txt", "b.txt"], "both files are still listed");
    assert!(d.files[0].unreadable.is_some(), "the bad one is marked");
    assert_eq!(
        (
            d.files[1].insertions,
            d.files[1].removals,
            &d.files[1].unreadable
        ),
        (1, 0, &None),
        "the good one still carries real counts"
    );
    // The header totals are what could be counted, not zero.
    assert_eq!((d.insertions, d.removals), (1, 0));
}

#[test]
fn a_count_that_fails_marks_the_file() {
    let d = repo()
        .commit_diff(Ok(vec![changed(
            "a.txt",
            FileChange::Modified,
            Counted::CountFailed("no lines".into()),
        )]))
        .unwrap();
    assert_eq!(
        d.files[0].unreadable.as_deref(),
        Some("counting a file's changed lines: no lines")
    );
    assert!(repo().commit_diff(Err(ReadError("gone".into()))).is_err());
}

#[test]
fn a_diff_that_cannot_be_made_says_why() {
    let fails = |content| {
        repo()
            .file_diff("a.txt", 3, Some(content), Ok(()))
            .unwrap_err()
            .0
    };
    assert_eq!(
        fails(FileContent::PrepareFailed("no driver".into())),
        "preparing a file diff: no driver"
    );
    assert_eq!(
        fails(FileContent::External),
        "an external diff driver cannot be rendered with line numbers"
    );
    let cut = repo().file_diff(
        "b.bin",
        3,
        Some(FileContent::Binary),
        Err(ReadError("walk failed".into())),
    );
    assert_eq!(cut.unwrap_err().0, "walk failed");
}

#[test]
fn a_very_long_diff_is_cut_off() {
    let after: String = (0..MAX_DIFF_LINES + 5).map(|i| format!("{i}\n")).collect();
    let d = file_diff("", &after, 3);
    assert!(d.truncated);
    assert_eq!(d.lines.len(), MAX_DIFF_LINES);
}

#[test]
fn lines_lose_their_terminators_and_bad_bytes_are_replaced() {
    let d = repo()
        .file_diff(
            "a.txt",
            3,
            Some(FileContent::Text {
                algorithm: Algorithm::Histogram,
                before: b"same\r\nold\n".to_vec(),
                after: b"same\r\nbad \xff byte".to_vec(),
            }),
            Ok(()),
        )
        .unwrap();
    assert_eq!(rendered(&d), [" same", "-old", "+bad \u{fffd} byte"]);
}

#[test]
fn only_the_first_file_at_the_path_is_wanted() {
    assert!(is_wanted(false, true, "a.txt", "a.txt"));
    assert!(!is_wanted(true, true, "a.txt", "a.txt"));
    assert!(!is_wanted(false, false, "a.txt", "a.txt"));
    assert!(!is_wanted(false, true, "a/a.txt", "a.txt"));
}

#[test]
fn walks_a_linear_history_newest_first() {
    let mut builder = GraphBuilder::new();
    for c in [
        commit(3, &[2], "third"),
        commit(2, &[1], "second"),
        commit(1, &[], "first"),
    ] {
        builder.feed(c);
    }
    let commits: Vec<&CommitInfo> = builder
        .nodes()
        .iter()
        .filter_map(|n| n.commit.as_ref())
        .collect();
    let summaries: Vec<_> = commits.iter().map(|c| c.summary.as_str()).collect();
    assert_eq!(summaries, ["third", "second", "first"]);
    assert_eq!(commits[0].parents.len(), 1);
    assert_eq!(commits[0].parents[0], commits[1].id);
    // The root commit has no parents.
    assert!(commits[2].parents.is_empty());
    assert_eq!(commits[0].author, "asd test");
    assert!(commits[0].time > commits[2].time);
}

#[test]
fn a_merge_commit_reports_both_parents() {
    let mut builder = GraphBuilder::new();
    for c in [
        commit(4, &[3, 2], "merge side"),
        commit(3, &[1], "on main"),
        commit(2, &[1], "on side"),
        commit(1, &[], "base"),
    ] {
        builder.feed(c);
    }
    let head = builder
        .nodes()
        .iter()
        .filter_map(|n| n.commit.as_ref())
        .find(|c| c.id == id(4))
        .expect("merge commit is in the walk");
    assert_eq!(head.parents.len(), 2, "merge has two parents");
    assert_eq!(builder.max_lane(), 1, "the side branch has a lane of its own");
}

#[test]
fn linear_history_uses_one_lane() {
    let mut b = GraphBuilder::new();
    for c in [
        commit(3, &[2], "third"),
        commit(2, &[1], "second"),
        commit(1, &[], "first"),
    ] {
        b.feed(c);
    }
    assert_eq!(b.max_lane(), 0, "a linear history never leaves lane 0");
    assert_eq!(b.nodes().len(), 3, "no connector rows in a linear history");
    for node in b.nodes() {
        assert!(node.commit.is_some(), "every row is a real commit");
        assert_eq!(node.lane, 0);
        assert_eq!(
            node.cells.first(),
            Some(&CellType::Commit(node.color_index)),
            "lane 0 holds the commit marker"
        );
    }
}

#[test]
fn an_empty_builder_has_no_rows() {
    let b = GraphBuilder::new();
    assert!(b.nodes().is_empty());
    assert_eq!(b.max_lane(), 0);
}

/// A listing of refs that all lead to a commit.
fn listing(refs: &[(&str, u64)]) -> Vec<Option<(String, ObjectId)>> {
    refs.iter()
        .map(|(name, n)| Some((name.to_string(), id(*n))))
        .collect()
}

#[test]
fn reports_branches_and_tags_by_short_name() {
    let refs = repo()
        .refs(Ok(RefListings {
            local: listing(&[("feature", 2), ("main", 1)]),
            remote: Vec::new(),
            tags: listing(&[("v1", 1)]),
        }))
        .unwrap();

    let mut branches: Vec<_> = refs
        .iter()
        .filter(|r| r.kind == RefKind::LocalBranch)
        .map(|r| r.name.as_str())
        .collect();
    branches.sort_unstable();
    assert_eq!(branches, ["feature", "main"]);

    let tags: Vec<_> = refs
        .iter()
        .filter(|r| r.kind == RefKind::Tag)
        .map(|r| r.name.as_str())
        .collect();
    assert_eq!(tags, ["v1"]);
}

#[test]
fn a_symbolic_ref_does_not_panic() {
    // `origin/HEAD` is symbolic in any clone, and one that leads nowhere is
    // skipped.
    let mut remote = listing(&[("origin/main", 1)]);
    remote.insert(0, None);
    let refs = repo()
        .refs(Ok(RefListings {
            local: Vec::new(),
            remote,
            tags: Vec::new(),
        }))
        .expect("a ref that cannot be peeled must not fail the read");
    let remotes: Vec<_> = refs
        .iter()
        .filter(|r| r.kind == RefKind::RemoteBranch)
        .map(|r| r.name.as_str())
        .collect();
    assert!(remotes.contains(&"origin/main"), "{remotes:?}");
}

#[test]
fn an_annotated_tag_peels_to_its_commit() {
    let refs = repo()
        .refs(Ok(RefListings {
            local: Vec::new(),
            remote: Vec::new(),
            tags: listing(&[("v2", 0xabc)]),
        }))
        .unwrap();
    let tag = refs.iter().find(|r| r.name == "v2").expect("tag is listed");
    assert_eq!(
        tag.target.to_hex(),
        "00000000000000000000000000000abc00000000",
        "the tag is listed at the commit it leads to"
    );
    assert!(repo().refs(Err(ReadError("no refs".into()))).is_err());
}

#[test]
fn local_branches_are_never_hidden_by_the_toggles() {
    assert!(RefKind::LocalBranch.visible(false, false));
    assert!(RefKind::LocalBranch.visible(true, true));
}

#[test]
fn remote_branches_and_tags_follow_their_own_toggle() {
    assert!(RefKind::RemoteBranch.visible(true, false));
    assert!(!RefKind::RemoteBranch.visible(false, true));
    assert!(RefKind::Tag.visible(false, true));
    assert!(!RefKind::Tag.visible(true, false));
}

#[test]
fn refs_are_grouped_by_the_commit_they_lead_to() {
    let label = |name: &str, n: u64, kind| RefInfo {
        name: name.to_string(),
        target: id(n),
        kind,
    };
    let groups = group_refs(vec![
        label("main", 2, RefKind::LocalBranch),
        label("old", 1, RefKind::LocalBranch),
        label("v2", 2, RefKind::Tag),
    ]);
    let names = |n: u64| -> Vec<String> {
        refs_at(&groups, id(n))
            .map(|refs| refs.iter().map(|r| r.name.clone()).collect())
            .unwrap_or_default()
    };
    assert_eq!(names(2), ["main", "v2"]);
    assert_eq!(names(1), ["old"]);
    assert!(refs_at(&groups, id(9)).is_none());
}

#[test]
fn opens_a_repository_and_reports_its_workdir() {
    let repo = Repo::open("/work/tree", Discovery::WorkTree("/work/tree".into()))
        .expect("a working tree was found");
    assert_eq!(repo.workdir(), "/work/tree");
}

#[test]
fn a_plain_directory_is_not_a_repository() {
    let err =
        Repo::open("/plain", Discovery::Nothing).expect_err("a plain directory is not a repository");
    assert!(matches!(err, OpenError::NotARepository { .. }), "{err:?}");
    assert_eq!(err.message(), "/plain is not a git repository");
    let bare = Repo::open("/bare", Discovery::Bare).unwrap_err();
    assert_eq!(bare.message(), "/bare has no working tree");
    let failed = Repo::open("/x", Discovery::Failed("denied".into())).unwrap_err();
    assert_eq!(failed.message(), "opening /x: denied");
}

#[test]
fn opening_a_subdirectory_finds_the_repository_root() {
    let repo = Repo::open("/work/tree/a/b", Discovery::WorkTree("/work/tree".into()))
        .expect("discovery walks upwards");
    assert_eq!(repo.workdir(), "/work/tree");
}

#[test]
fn a_clean_tree_reports_no_changes() {
    assert_eq!(repo().working_changes(Ok(Vec::new())).unwrap(), 0);
}

#[test]
fn a_modified_and_an_untracked_file_are_both_counted() {
    assert_eq!(repo().working_changes(Ok(vec![true, true])).unwrap(), 2);
    // One that could not be read does not blank the count.
    assert_eq!(
        repo().working_changes(Ok(vec![true, false, true])).unwrap(),
        2
    );
    assert!(repo()
        .working_changes(Err(ReadError("no index".into())))
        .is_err());
}

#[test]
fn an_unborn_repository_reports_zero_rather_than_failing() {
    assert_eq!(repo().working_changes(Ok(vec![])).unwrap(), 0);
}

#[test]
fn an_unborn_repository_with_an_untracked_file_is_still_counted() {
    assert_eq!(repo().working_changes(Ok(vec![true])).unwrap(), 1);
}

/// A status entry for a file whose sides are texts.
fn entry(
    path: &str,
    stage: WorktreeStage,
    before: Option<&str>,
    after: Option<&str>,
) -> ChangeRow {
    ChangeRow::of_status(StatusEntry {
        location: path.as_bytes().to_vec(),
        stage,
        sides: Ok((
            before.map(|s| s.as_bytes().to_vec()),
            after.map(|s| s.as_bytes().to_vec()),
        )),
    })
}

#[test]
fn staged_and_unstaged_changes_are_distinct_even_when_they_cancel() {
    let staged = ("base\n", "staged\n");
    let unstaged = ("staged\n", "base\n");
    let diff = repo()
        .working_diff(Ok(vec![
            entry(
                "a.txt",
                WorktreeStage::Unstaged,
                Some(unstaged.0),
                Some(unstaged.1),
            ),
            entry(
                "a.txt",
                WorktreeStage::Staged,
                Some(staged.0),
                Some(staged.1),
            ),
        ]))
        .unwrap();
    assert_eq!(diff.files.len(), 2);
    assert_eq!(diff.files[0].stage, Some(WorktreeStage::Staged));
    assert_eq!(diff.files[1].stage, Some(WorktreeStage::Unstaged));
    for (before, after) in [staged, unstaged] {
        let file = repo()
            .working_file_diff(
                "a.txt",
                Ok((
                    Some(before.as_bytes().to_vec()),
                    Some(after.as_bytes().to_vec()),
                )),
                3,
            )
            .unwrap();
        assert!(file
            .lines
            .iter()
            .any(|line| matches!(line, DiffLine::Added { .. })));
        assert!(file
            .lines
            .iter()
            .any(|line| matches!(line, DiffLine::Removed { .. })));
    }
}

#[test]
fn unborn_staged_and_nested_untracked_files_are_reviewable() {
    let diff = repo()
        .working_diff(Ok(vec![
            entry("staged.txt", WorktreeStage::Staged, None, Some("staged\n")),
            entry(
                "nested/new.txt",
                WorktreeStage::Untracked,
                None,
                Some("new\n"),
            ),
        ]))
        .unwrap();
    assert_eq!(diff.files.len(), 2);
    assert!(
        diff.files.iter().all(|file| file.unreadable.is_none()),
        "{diff:?}"
    );
    assert!(repo()
        .working_file_diff("staged.txt", Ok((None, Some(b"staged\n".to_vec()))), 3)
        .unwrap()
        .lines
        .iter()
        .any(|line| matches!(line, DiffLine::Added { text, .. } if text == "staged")));
}

#[test]
fn staged_rename_lists_both_sides_and_deleted_file_has_removals() {
    let diff = repo()
        .working_diff(Ok(vec![
            entry("old.txt", WorktreeStage::Staged, Some("base\n"), None),
            entry("new.txt", WorktreeStage::Staged, None, Some("base\n")),
        ]))
        .unwrap();
    assert_eq!(diff.files.len(), 2);
    assert!(diff
        .files
        .iter()
        .any(|file| file.path == "old.txt" && file.change == FileChange::Deleted));
    assert!(diff
        .files
        .iter()
        .any(|file| file.path == "new.txt" && file.change == FileChange::Added));
    let old = repo()
        .working_file_diff("old.txt", Ok((Some(b"base\n".to_vec()), None)), 3)
        .unwrap();
    assert!(old
        .lines
        .iter()
        .any(|line| matches!(line, DiffLine::Removed { .. })));
}

#[test]
fn non_utf8_filename_is_not_an_actionable_lossy_path() {
    let stat = file_stat(&b"bad\xff.txt".to_vec(), WorktreeStage::Untracked);
    assert!(stat.stage.is_none(), "a lossy filename must not be opened");
    assert!(stat.unreadable.is_some());
    assert!(stat.path.contains("bad"));
    let plain = file_stat(&b"good.txt".to_vec(), WorktreeStage::Untracked);
    assert_eq!(plain.path, "good.txt");
    assert_eq!(plain.stage, Some(WorktreeStage::Untracked));
}

#[test]
fn oversized_blob_is_rejected_from_header_before_body_decoding() {
    let error = within_limit(MAX_FILE_BYTES as u64 + 1).unwrap_err();
    assert!(
        error.0.contains("8 MiB"),
        "the limit is not what was reported: {error:?}"
    );
    assert!(within_limit(MAX_FILE_BYTES as u64).is_ok());
}

#[test]
fn each_stage_compares_its_own_two_sides() {
    assert_eq!(
        sides_of(WorktreeStage::Staged),
        (Source::Head, Source::Index)
    );
    assert_eq!(
        sides_of(WorktreeStage::Unstaged),
        (Source::Index, Source::WorkTree)
    );
    assert_eq!(
        sides_of(WorktreeStage::Untracked),
        (Source::Nothing, Source::WorkTree)
    );
}

#[test]
fn paths_that_leave_the_repository_are_refused() {
    assert!(is_repository_relative("src/main.rs"));
    assert!(!is_repository_relative("/etc/passwd"));
    assert!(!is_repository_relative("a/../../b"));
    let read = |path, met| repo().read_worktree(path, met);
    assert_eq!(
        read("../x", WorktreeEntry::Missing).unwrap_err().0,
        "invalid repository-relative path"
    );
    assert_eq!(
        read("x", WorktreeEntry::Outside).unwrap_err().0,
        "working path leaves repository"
    );
    assert_eq!(
        read("x", WorktreeEntry::NotAFile).unwrap_err().0,
        "non-file entries cannot be diffed"
    );
    assert_eq!(
        read("x", WorktreeEntry::LinkFailed("loop".into()))
            .unwrap_err()
            .0,
        "reading symbolic link: loop"
    );
    assert_eq!(read("x", WorktreeEntry::Missing).unwrap(), None);
    assert_eq!(
        read("x", WorktreeEntry::File(b"hi".to_vec())).unwrap(),
        Some(b"hi".to_vec())
    );
    assert!(read("x", WorktreeEntry::File(vec![0; MAX_FILE_BYTES + 1])).is_err());
}

#[test]
fn a_working_file_with_a_nul_byte_is_binary() {
    let d = repo()
        .working_file_diff(
            "b.bin",
            Ok((None, Some(vec![0u8, 159, 146, 150, 0, 1, 2]))),
            3,
        )
        .unwrap();
    assert!(d.binary);
    assert!(d.lines.is_empty());
}

#[test]
fn changed_lines_are_counted_by_either_algorithm() {
    for algorithm in [
        Algorithm::Histogram,
        Algorithm::Myers,
        Algorithm::MyersMinimal,
    ] {
        let count = |before: &str, after: &str| {
            count_changes(
                algorithm,
                &before.as_bytes().to_vec(),
                &after.as_bytes().to_vec(),
            )
        };
        assert_eq!(count("", ""), (0, 0));
        assert_eq!(count("a\nb\nc\n", "a\nX\nc\nd\n"), (2, 1));
        // A line's end is not part of it.
        assert_eq!(count("a\r\nb", "a\nb\n"), (0, 0));
        assert_eq!(count("a\nb\n", ""), (0, 2));
    }
}

#[test]
fn the_pane_agrees_with_a_diff_of_any_context() {
    let (before, after) = repetitive_sides(2);
    let row = || changed("a.txt", FileChange::Modified, texts(&before, &after));
    assert!(can_total(&vec![row(), row()]));
    let pane = repo().commit_diff(Ok(vec![row(), row()])).unwrap();
    for context in [0, 1, 3, 1000, 0x7fff_ffff, u32::MAX] {
        let opened = totals(&file_diff(&before, &after, context));
        assert_eq!(
            opened,
            (pane.files[0].insertions, pane.files[0].removals),
            "context {context}"
        );
    }
    assert_eq!(pane.insertions, 2 * pane.files[0].insertions);
    assert_eq!(pane.removals, 2 * pane.files[0].removals);
    // So does the pane of what is not committed.
    let status = entry("a.txt", WorktreeStage::Unstaged, Some(&before), Some(&after));
    let pane = repo().working_diff(Ok(vec![status])).unwrap();
    for context in [0, 3] {
        let sides = (
            Some(before.as_bytes().to_vec()),
            Some(after.as_bytes().to_vec()),
        );
        let opened = repo().working_file_diff("a.txt", Ok(sides), context).unwrap();
        assert_eq!(
            totals(&opened),
            (pane.files[0].insertions, pane.files[0].removals)
        );
    }
}

#[test]
fn a_status_of_very_many_entries_is_listed() {
    let many = 215_000;
    let rows: Vec<ChangeRow> = (0..many)
        .map(|_| entry("a.txt", WorktreeStage::Untracked, None, Some("x\n")))
        .collect();
    assert!(can_total(&rows));
    let rows = rows.into_iter().take(300).collect();
    let pane = repo().working_diff(Ok(rows)).unwrap();
    assert_eq!(pane.files.len(), 300);
    assert_eq!((pane.insertions, pane.removals), (300, 0));
}
