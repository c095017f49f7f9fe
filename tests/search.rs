use commands::catalog::{base_dir, load, split_lines, LoadError};
use commands::report::{list_output, search_output, Report};
use commands::search::{entry_matches, select, select_matching, Query};
use commands::text::{chars_of, contains_text};

fn sample_catalog() -> Vec<String> {
    vec![
        "ls - list files".to_string(),
        "LS - legacy alias".to_string(),
        "cd - change directory".to_string(),
    ]
}

fn strings(v: &[&str]) -> Vec<String> {
    v.iter().map(|s| s.to_string()).collect()
}

#[test]
fn case_sensitive_search_finds_exact_case_only() {
    let catalog = sample_catalog();
    let query = Some(Query::new("ls".to_string(), true));
    assert_eq!(select(&catalog, &query), strings(&["ls - list files"]));
    let out = search_output(&catalog, query.as_ref().unwrap());
    assert_eq!(
        out,
        strings(&[
            "1 MATCHING COMMAND",
            "(*) MEANS THE COMMAND RUN BY ROOT USER",
            "ls - list files",
        ])
    );
}

#[test]
fn case_insensitive_search_finds_both_cases() {
    let catalog = sample_catalog();
    let query = Some(Query::new("ls".to_string(), false));
    assert_eq!(
        select(&catalog, &query),
        strings(&["ls - list files", "LS - legacy alias"])
    );
    let out = search_output(&catalog, query.as_ref().unwrap());
    assert_eq!(
        out,
        strings(&[
            "2 MATCHING COMMANDS",
            "(*) MEANS THE COMMAND RUN BY ROOT USER",
            "ls - list files",
            "LS - legacy alias",
        ])
    );
}

#[test]
fn search_without_match_reports_no_command() {
    let catalog = sample_catalog();
    for case_sensitive in [true, false] {
        let query = Query::new("zz".to_string(), case_sensitive);
        assert!(select_matching(&catalog, &query).is_empty());
        assert_eq!(search_output(&catalog, &query), strings(&["NO COMMAND FOUND"]));
    }
}

#[test]
fn listing_prints_header_then_catalog() {
    let catalog = sample_catalog();
    let mut expected = strings(&["AVAILABLE LINUX COMMANDS:"]);
    expected.extend(catalog.iter().cloned());
    assert_eq!(list_output(&catalog), expected);
}

#[test]
fn missing_catalog_fails_to_load_with_open_error() {
    let r = load(Err(LoadError::Open("No such file or directory (os error 2)".to_string())));
    match r {
        Err(e) => {
            assert!(matches!(e, LoadError::Open(_)));
            assert_eq!(
                e.diagnostic(),
                "ERROR: \nError opening file: No such file or directory (os error 2)"
            );
        }
        Ok(_) => panic!("a missing file must not load"),
    }
}

#[test]
fn unreadable_catalog_reports_read_error() {
    let e = LoadError::Read("stream did not contain valid UTF-8".to_string());
    assert_eq!(
        e.diagnostic(),
        "ERROR: \nFailed to read the file: stream did not contain valid UTF-8"
    );
    assert!(matches!(load(Err(e)), Err(LoadError::Read(_))));
}

#[test]
fn loading_text_splits_it_into_lines() {
    let r = load(Ok("ls - list files\nsudo reboot (*)\n".to_string()));
    match r {
        Ok(lines) => assert_eq!(lines, strings(&["ls - list files", "sudo reboot (*)"])),
        Err(_) => panic!("text must load"),
    }
}

#[test]
fn no_query_returns_whole_catalog_in_order() {
    let catalog = strings(&["b", "a", "b", "", "c (*)"]);
    assert_eq!(select(&catalog, &None), catalog);
    let empty: Vec<String> = Vec::new();
    assert_eq!(select(&empty, &None), empty);
}

#[test]
fn every_result_contains_query_and_every_other_line_does_not() {
    let catalog = strings(&["git commit", "git push", "rm -rf (*)", "grep git", "Git log"]);
    let query = Query::new("git".to_string(), true);
    let found = select_matching(&catalog, &query);
    assert_eq!(found, strings(&["git commit", "git push", "grep git"]));
    for line in &catalog {
        assert_eq!(found.contains(line), line.contains("git"));
    }
}

#[test]
fn ignoring_case_selects_a_superset() {
    let catalog = strings(&["Make DIR", "mkdir", "MKDIR -p", "rmdir", "mkDir x"]);
    for q in ["mkdir", "DIR", "Dir", "k"] {
        let exact = select_matching(&catalog, &Query::new(q.to_string(), true));
        let folded = select_matching(&catalog, &Query::new(q.to_string(), false));
        for line in &exact {
            assert!(folded.contains(line));
        }
        assert!(folded.len() >= exact.len());
    }
}

#[test]
fn results_keep_catalog_order_without_duplicates() {
    let catalog = strings(&["z tar", "a tar", "m untar", "b zip", "c tar"]);
    let found = select_matching(&catalog, &Query::new("tar".to_string(), true));
    assert_eq!(found, strings(&["z tar", "a tar", "m untar", "c tar"]));
    let mut pos = 0usize;
    for line in &found {
        let at = catalog[pos..].iter().position(|l| l == line).unwrap();
        pos += at + 1;
    }
}

#[test]
fn duplicate_catalog_lines_are_each_kept() {
    let catalog = strings(&["ps aux", "top", "ps aux"]);
    let found = select_matching(&catalog, &Query::new("ps".to_string(), true));
    assert_eq!(found, strings(&["ps aux", "ps aux"]));
}

#[test]
fn count_wording_follows_the_number() {
    assert_eq!(Report::for_count(0), Report::NoMatch);
    assert_eq!(Report::for_count(0).message(), "NO COMMAND FOUND");
    assert_eq!(Report::for_count(1), Report::Matches { count: 1, plural: false });
    assert_eq!(Report::for_count(1).message(), "1 MATCHING COMMAND");
    assert_eq!(Report::for_count(2).message(), "2 MATCHING COMMANDS");
    assert_eq!(Report::for_count(10).message(), "10 MATCHING COMMANDS");
    assert_eq!(Report::for_count(305).message(), "305 MATCHING COMMANDS");
    assert_eq!(
        Report::for_count(usize::MAX).message(),
        format!("{} MATCHING COMMANDS", usize::MAX)
    );
}

#[test]
fn lines_split_at_newlines() {
    assert_eq!(split_lines(""), Vec::<String>::new());
    assert_eq!(split_lines("\n"), strings(&[""]));
    assert_eq!(split_lines("one"), strings(&["one"]));
    assert_eq!(split_lines("one\ntwo\n"), strings(&["one", "two"]));
    assert_eq!(split_lines("one\n\ntwo"), strings(&["one", "", "two"]));
    assert_eq!(split_lines("one\r\ntwo\r\n"), strings(&["one", "two"]));
    assert_eq!(split_lines("one\r\ntwo\r"), strings(&["one", "two\r"]));
    assert_eq!(split_lines("a\r\r\nb"), strings(&["a\r", "b"]));
    assert_eq!(split_lines("ünï\ncödé (*)"), strings(&["ünï", "cödé (*)"]));
}

#[test]
fn lines_agree_with_std() {
    for text in ["", "x", "x\n", "\n\n", "a\r\nb\nc\r", "\r\n", "é\nß\r\n\n"] {
        let expected: Vec<String> = text.lines().map(|l| l.to_string()).collect();
        assert_eq!(split_lines(text), expected);
    }
}

#[test]
fn substring_containment() {
    assert!(contains_text("ls - list files", "list"));
    assert!(contains_text("ls - list files", ""));
    assert!(contains_text("", ""));
    assert!(!contains_text("", "a"));
    assert!(!contains_text("ls", "ls -"));
    assert!(contains_text("abcabd", "abd"));
    assert!(!contains_text("ls - list", "LS"));
    assert!(contains_text("grüße (*)", "üße"));
    assert_eq!(chars_of("añb"), vec!['a', 'ñ', 'b']);
}

#[test]
fn ignoring_case_lowers_both_sides() {
    let folded = Query::new("LS".to_string(), false);
    assert!(entry_matches("ls - list files", &folded));
    assert!(entry_matches("Ls - list files", &Query::new("lS".to_string(), false)));
    assert!(!entry_matches("ls - list files", &Query::new("LS".to_string(), true)));
    assert!(entry_matches("ÉCHO", &Query::new("écho".to_string(), false)));
}

#[test]
fn base_dir_falls_back_to_current_directory() {
    assert_eq!(base_dir(Some("/home/ana".to_string())), "/home/ana");
    assert_eq!(base_dir(None), ".");
}

#[test]
fn ignoring_case_follows_full_lowercasing_of_each_side() {
    // A capital sigma at the end of a word lowers to the final form, alone to
    // the medial one, so the folded line no longer contains the folded query.
    let catalog = strings(&["ΟΔΟΣ"]);
    let exact = select_matching(&catalog, &Query::new("Σ".to_string(), true));
    let folded = select_matching(&catalog, &Query::new("Σ".to_string(), false));
    assert_eq!(exact, strings(&["ΟΔΟΣ"]));
    assert!(folded.is_empty());
}
