use wtui::porcelain::{parse_status_summary, parse_worktree_list};

#[test]
fn parses_worktree_porcelain() {
    let worktrees = parse_worktree_list(
        "worktree /repos/botanic\nHEAD abc123\nbranch refs/heads/main\n\nworktree /repos/botanic-feature\nHEAD def456\nbranch refs/heads/feature\nlocked reason\n\n",
    )
    .unwrap();
    assert_eq!(worktrees.len(), 2);
    assert_eq!(worktrees[0].branch.as_deref(), Some("main"));
    assert!(worktrees[1].locked);
}

#[test]
fn parses_status_counts_and_tracking() {
    let status = parse_status_summary(
        "# branch.oid abc\0# branch.head feature\0# branch.upstream origin/feature\0# branch.ab +2 -1\x001 M. N... 100644 100644 100644 abc def file\0? new-file\0! ignored-file\0",
    );
    assert_eq!(status.dirty_files, 2);
    assert_eq!(status.ignored_files, 1);
    assert_eq!(status.upstream.as_deref(), Some("origin/feature"));
    assert_eq!(status.ahead, Some(2));
    assert_eq!(status.behind, Some(1));
}

#[test]
fn counts_a_rename_once_when_its_source_path_looks_like_a_record() {
    let status = parse_status_summary(
        "2 R. N... 100644 100644 100644 abc def R100 renamed\x002-source-name\0",
    );
    assert_eq!(status.dirty_files, 1);
}

#[test]
fn worktree_list_reads_back() {
    let worktrees = parse_worktree_list(
        "worktree /repos/botanic\nHEAD abc123\nbranch refs/heads/main\n\nworktree /repos/détaché\nHEAD def456\ndetached\nlocked\n\n",
    )
    .unwrap();
    assert_eq!(worktrees[0].path.bytes, "/repos/botanic".as_bytes());
    assert!(!worktrees[0].locked);
    assert_eq!(worktrees[1].path.bytes, "/repos/détaché".as_bytes());
    assert_eq!(worktrees[1].branch, None);
    assert!(worktrees[1].locked);
}

#[test]
fn worktree_list_may_be_empty() {
    assert_eq!(parse_worktree_list("").unwrap().len(), 0);
    assert_eq!(parse_worktree_list("\n\n \n\n\t\n").unwrap().len(), 0);
}

#[test]
fn worktree_entry_needs_a_path() {
    assert_eq!(
        parse_worktree_list("worktree /a\n\nHEAD abc\nbranch refs/heads/main\n").unwrap_err(),
        "Git returned a worktree entry without a path",
    );
}

#[test]
fn worktree_entry_goes_by_its_last_rows() {
    let worktrees = parse_worktree_list(
        "worktree /a\nworktree /b\r\nbranch refs/heads/x\nbranch refs/heads/y/z\nbranch refs/tags/t\nlockedness\nprunable",
    )
    .unwrap();
    assert_eq!(worktrees.len(), 1);
    assert_eq!(worktrees[0].path.bytes, "/b".as_bytes());
    assert_eq!(worktrees[0].branch.as_deref(), Some("y/z"));
    assert!(!worktrees[0].locked);
}

#[test]
fn status_of_nothing_is_clean() {
    let status = parse_status_summary("");
    assert_eq!(status.dirty_files, 0);
    assert_eq!(status.ignored_files, 0);
    assert_eq!(status.upstream, None);
    assert_eq!(status.ahead, None);
    assert_eq!(status.behind, None);
}

#[test]
fn status_counts_each_record_once() {
    let status = parse_status_summary(
        "1 .M a\0u UU b\0? c\02 R. d\0! looks-ignored\02 C. e\01 looks-changed\0! f\0! g/\0x other\0",
    );
    assert_eq!(status.dirty_files, 5);
    assert_eq!(status.ignored_files, 2);
}

#[test]
fn status_rename_may_come_last() {
    assert_eq!(parse_status_summary("2 R. d").dirty_files, 1);
    // Only `2` and a space tell of a rename.
    let status = parse_status_summary("2R\01 .M a\0");
    assert_eq!(status.dirty_files, 1);
}

#[test]
fn status_goes_by_its_last_headers() {
    let status = parse_status_summary(
        "# branch.upstream a/b\0# branch.ab +1 -1\0# branch.upstream c/d\0# branch.ab +3 -4\0",
    );
    assert_eq!(status.upstream.as_deref(), Some("c/d"));
    assert_eq!(status.ahead, Some(3));
    assert_eq!(status.behind, Some(4));
}

#[test]
fn status_tracking_may_be_malformed() {
    let status = parse_status_summary("# branch.ab +x -2\0");
    assert_eq!((status.ahead, status.behind), (None, Some(2)));
    let status = parse_status_summary("# branch.ab 1\0");
    assert_eq!((status.ahead, status.behind), (None, None));
    let status = parse_status_summary("# branch.ab +4294967296 -4294967295\0");
    assert_eq!((status.ahead, status.behind), (None, Some(4294967295)));
    let status = parse_status_summary("# branch.ab \0");
    assert_eq!((status.ahead, status.behind), (None, None));
}

#[test]
fn lists_read_one_after_the_other() {
    let texts = [
        "", "\n", " \n\n", "worktree /a\nlocked", "worktree /b\nbranch refs/heads/x\n",
        "\nworktree /c\n\n", "worktree /d\n\n\nworktree /e", "HEAD abc\n",
    ];
    let read = |text: &str| {
        parse_worktree_list(text).map(|list| {
            list.into_iter()
                .map(|entry| (entry.path.bytes, entry.branch, entry.locked))
                .collect::<Vec<_>>()
        })
    };
    for first in texts {
        for second in texts {
            let whole = read(&format!("{first}\n\n{second}"));
            match (read(first), read(second)) {
                (Ok(mut earlier), Ok(later)) => {
                    earlier.extend(later);
                    assert_eq!(whole, Ok(earlier), "{first:?} {second:?}");
                }
                _ => assert!(whole.is_err(), "{first:?} {second:?}"),
            }
        }
    }
}

#[test]
fn other_headers_change_nothing() {
    let status = parse_status_summary("# branch.oid abc\0# stash 3\0? new\0");
    assert_eq!(status.dirty_files, 1);
    assert_eq!((status.upstream, status.ahead, status.behind), (None, None, None));
}
