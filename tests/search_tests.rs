use rust_file_manager::{
    admits, command_lines, compile_all, delete_words, display, get_matched_files, keep_accessible,
    matches_any_of, matching_lines, placeholder_position, replace_words, split_template,
    threshold_from, AddConfig, Entry, FileError, FindConfig, FindError, FindPlan, GrepConfig,
    MyFile, Pattern, RemoveConfig, RootOutput, TrConfig, render,
};

fn file(name: &str, path: &str, size_bytes: u64) -> Entry {
    Entry::File(MyFile { name: name.to_string(), path: path.to_string(), size_bytes })
}

fn data_tree() -> Entry {
    Entry::Dir(vec![
        file("a.txt", "./data/a.txt", 10),
        file("b.log", "./data/b.log", 5),
        Entry::Dir(vec![file("c.txt", "./data/sub/c.txt", 20)]),
    ])
}

fn config<'a>(patterns: Vec<&'a str>, size: Option<&'a str>) -> FindConfig<'a> {
    FindConfig {
        dirs: vec!["./data"],
        patterns,
        output: None,
        size,
        command: None,
        replace: None,
        all: false,
    }
}

fn lines(out: RootOutput) -> Vec<String> {
    match out {
        RootOutput::Lines(ls) => ls,
        RootOutput::Commands(_) => panic!("expected lines"),
    }
}

fn cmds(out: RootOutput) -> Vec<Vec<String>> {
    match out {
        RootOutput::Commands(cs) => cs,
        RootOutput::Lines(_) => panic!("expected commands"),
    }
}

fn strings(v: &[&str]) -> Vec<String> {
    v.iter().map(|s| s.to_string()).collect()
}

#[test]
fn scenario_threshold_eight() {
    let cfg = config(vec![r"\.txt$"], Some("8"));
    let mut plan = cfg.plan().unwrap();
    let out = plan.process_root(&data_tree());
    assert_eq!(lines(out), strings(&["./data/a.txt", "./data/sub/c.txt"]));
    assert_eq!(plan.batch.len(), 2);
    assert_eq!(plan.batch[0].name, "a.txt");
    assert_eq!(plan.batch[1].size_bytes, 20);
}

#[test]
fn scenario_threshold_twenty() {
    let cfg = config(vec![r"\.txt$"], Some("20"));
    let mut plan = cfg.plan().unwrap();
    let out = plan.process_root(&data_tree());
    assert!(lines(out).is_empty());
}

#[test]
fn size_equal_to_threshold_is_excluded() {
    assert!(!admits(Some(8), 8));
    assert!(admits(Some(8), 9));
    assert!(!admits(Some(8), 0));
    assert!(admits(None, 0));
    let tree = Entry::Dir(vec![file("e", "e", 8), file("f", "f", 9)]);
    let mut plan = config(vec!["."], Some("8")).plan().unwrap();
    assert_eq!(lines(plan.process_root(&tree)), strings(&["f"]));
}

#[test]
fn no_threshold_admits_everything() {
    let mut plan = config(vec!["."], None).plan().unwrap();
    assert_eq!(plan.min_size, None);
    let tree = Entry::Dir(vec![file("e", "e", 0), file("f", "f", 9)]);
    assert_eq!(lines(plan.process_root(&tree)), strings(&["e", "f"]));
}

#[test]
fn scenario_exec_per_file() {
    let tree = Entry::Dir(vec![file("x.txt", "x.txt", 1), file("y.txt", "y.txt", 1)]);
    let cfg = FindConfig {
        command: Some("cp {} /backup/"),
        replace: Some("{}"),
        ..config(vec!["txt"], None)
    };
    let mut plan = cfg.plan().unwrap();
    let out = cmds(plan.process_root(&tree));
    assert_eq!(
        out,
        vec![strings(&["cp", "x.txt", "/backup/"]), strings(&["cp", "y.txt", "/backup/"])]
    );
}

#[test]
fn scenario_exec_all() {
    let tree = Entry::Dir(vec![file("x.txt", "x.txt", 1), file("y.txt", "y.txt", 1)]);
    let cfg = FindConfig {
        command: Some("cp {} /backup/"),
        replace: Some("{}"),
        all: true,
        ..config(vec!["txt"], None)
    };
    let mut plan = cfg.plan().unwrap();
    let out = cmds(plan.process_root(&tree));
    assert_eq!(out, vec![strings(&["cp", "x.txt", "y.txt", "/backup/"])]);
}

#[test]
fn batched_mode_spawns_once_even_without_matches() {
    let cfg = FindConfig {
        command: Some("echo {} done"),
        replace: Some("{}"),
        all: true,
        ..config(vec!["nothing-matches-this"], None)
    };
    let mut plan = cfg.plan().unwrap();
    let out = cmds(plan.process_root(&data_tree()));
    assert_eq!(out, vec![strings(&["echo", "done"])]);
}

#[test]
fn per_file_mode_spawns_once_per_match() {
    let cfg = FindConfig {
        command: Some("wc -c {}"),
        replace: Some("{}"),
        ..config(vec!["data"], None)
    };
    let mut plan = cfg.plan().unwrap();
    let out = cmds(plan.process_root(&data_tree()));
    assert_eq!(out.len(), 3);
    assert_eq!(out[2], strings(&["wc", "-c", "./data/sub/c.txt"]));
}

#[test]
fn batches_do_not_cross_roots() {
    let root_a = Entry::Dir(vec![file("a1", "A/a1", 3), file("a2", "A/a2", 4)]);
    let root_b = Entry::Dir(vec![file("b1", "B/b1", 3)]);
    let mut plan = config(vec!["1"], None).plan().unwrap();
    assert_eq!(lines(plan.process_root(&root_a)), strings(&["A/a1"]));
    assert_eq!(lines(plan.process_root(&root_b)), strings(&["B/b1"]));
    assert_eq!(plan.batch.len(), 1);
    assert_eq!(plan.batch[0].path, "B/b1");
    assert!(lines(plan.process_root(&Entry::Skipped)).is_empty());
    assert!(plan.batch.is_empty());
}

#[test]
fn output_keeps_visitation_order() {
    let tree = Entry::Dir(vec![
        file("z", "r/z", 1),
        Entry::Dir(vec![file("m", "r/d/m", 1), Entry::Skipped]),
        file("a", "r/a", 1),
    ]);
    let mut plan = config(vec!["r/"], None).plan().unwrap();
    assert_eq!(lines(plan.process_root(&tree)), strings(&["r/z", "r/d/m", "r/a"]));
}

#[test]
fn each_qualifying_file_appears_once() {
    let tree = Entry::Dir(vec![
        Entry::Dir(vec![Entry::Dir(vec![file("deep.rs", "t/1/2/deep.rs", 7)])]),
        file("top.rs", "t/top.rs", 7),
    ]);
    let pats = compile_all(&vec![r"\.rs$", "deep"]);
    let mut found: Vec<MyFile> = Vec::new();
    get_matched_files(&mut found, &tree, &pats, None);
    let paths: Vec<String> = found.iter().map(|f| f.path.clone()).collect();
    assert_eq!(paths, strings(&["t/1/2/deep.rs", "t/top.rs"]));
}

#[test]
fn walker_appends_to_existing_batch() {
    let pats = compile_all(&vec!["x"]);
    let mut found = vec![MyFile { name: "k".to_string(), path: "k".to_string(), size_bytes: 1 }];
    get_matched_files(&mut found, &file("x", "x", 2), &pats, Some(1));
    assert_eq!(display(&found), strings(&["k", "x"]));
}

#[test]
fn pattern_matches_anywhere_in_path() {
    let p = Pattern::compile("ata/a").unwrap();
    assert_eq!(p.as_str(), "ata/a");
    assert!(p.is_match("./data/a.txt"));
    assert!(!p.is_match("./data/b.log"));
    assert!(Pattern::compile("(").is_none());
    let pats = compile_all(&vec!["(", "log$", "[z-a]"]);
    assert_eq!(pats.len(), 1);
    assert!(matches_any_of(&pats, "./data/b.log"));
    assert!(!matches_any_of(&pats, "./data/a.txt"));
}

#[test]
fn error_no_valid_patterns() {
    let err = config(vec![")", "("], None).plan().err().unwrap();
    assert_eq!(err, FindError::NoValidPatterns);
    assert_eq!(err.message(), "No valid regex given");
    assert_eq!(
        FindError::MissingPlaceholder.message(),
        "The placeholder does not appear in the command template"
    );
    assert_eq!(
        FindError::BadTemplate.message(),
        "The command template could not be split into words"
    );
}

#[test]
fn error_no_valid_roots() {
    let err = keep_accessible(&vec!["a", "b"], &vec![false, false]).err().unwrap();
    assert_eq!(err, FindError::NoValidRoots);
    assert_eq!(err.message(), "No valid directories given");
    assert_eq!(keep_accessible(&vec!["a", "b", "c"], &vec![false, true, true]).unwrap(), vec!["b", "c"]);
}

#[test]
fn error_bad_template() {
    let cfg = FindConfig {
        command: Some("cp \"{} /backup/"),
        replace: Some("{}"),
        ..config(vec!["."], None)
    };
    assert_eq!(cfg.plan().err().unwrap(), FindError::BadTemplate);
}

#[test]
fn error_missing_placeholder() {
    let cfg = FindConfig {
        command: Some("cp {} /backup/"),
        replace: Some("%"),
        ..config(vec!["."], None)
    };
    assert_eq!(cfg.plan().err().unwrap(), FindError::MissingPlaceholder);
    let cfg2 = FindConfig { replace: None, ..cfg };
    assert_eq!(cfg2.plan().err().unwrap(), FindError::MissingPlaceholder);
}

#[test]
fn template_is_split_like_a_shell() {
    let words = split_template("echo 'a b' \"c d\" e\\ f {}").unwrap();
    assert_eq!(words, strings(&["echo", "a b", "c d", "e f", "{}"]));
    assert!(split_template("echo 'open").is_none());
    assert_eq!(placeholder_position(&words, "{}"), Some(4));
    assert_eq!(placeholder_position(&strings(&["x", "{}", "{}"]), "{}"), Some(1));
    assert_eq!(placeholder_position(&words, "%"), None);
}

#[test]
fn quoted_placeholder_is_found_after_splitting() {
    let cfg = FindConfig {
        command: Some("mv '{}' /tmp/dest"),
        replace: Some("{}"),
        ..config(vec!["."], None)
    };
    let plan: FindPlan = cfg.plan().unwrap();
    let d = plan.dispatch.unwrap();
    assert_eq!(d.pos, 1);
    assert_eq!(d.template, strings(&["mv", "{}", "/tmp/dest"]));
    assert!(!d.all);
}

#[test]
fn command_lines_put_paths_at_the_placeholder() {
    let template = strings(&["tar", "czf", "out.tgz", "{}", "--verbose"]);
    let paths = strings(&["p", "q"]);
    assert_eq!(
        command_lines(&template, 3, &paths, true),
        vec![strings(&["tar", "czf", "out.tgz", "p", "q", "--verbose"])]
    );
    assert_eq!(
        command_lines(&template, 0, &paths, false),
        vec![
            strings(&["p", "czf", "out.tgz", "{}", "--verbose"]),
            strings(&["q", "czf", "out.tgz", "{}", "--verbose"]),
        ]
    );
    assert!(command_lines(&template, 3, &Vec::new(), false).is_empty());
}

#[test]
fn size_argument_parsing() {
    assert_eq!(threshold_from(Some("12")), Some(12));
    assert_eq!(threshold_from(Some("+5")), Some(5));
    assert_eq!(threshold_from(Some("0")), None);
    assert_eq!(threshold_from(Some("")), None);
    assert_eq!(threshold_from(Some(" 3")), None);
    assert_eq!(threshold_from(Some("18446744073709551615")), Some(u64::MAX));
    assert_eq!(threshold_from(Some("18446744073709551616")), None);
    assert_eq!(threshold_from(None), None);
}

#[test]
fn file_record_from_text() {
    let ok = MyFile::from_text("./dir/a.txt".to_string(), Some(4)).unwrap();
    assert_eq!(ok.name, "a.txt");
    assert_eq!(ok.path, "./dir/a.txt");
    assert_eq!(ok.size_bytes, 4);
    assert_eq!(MyFile::from_text("/".to_string(), Some(1)).err(), Some(FileError::NoFileName));
    assert_eq!(MyFile::from_text("a/..".to_string(), Some(1)).err(), Some(FileError::NoFileName));
    assert_eq!(
        MyFile::from_text("x".to_string(), None).err(),
        Some(FileError::MetadataUnavailable)
    );
    assert_eq!(FileError::MetadataUnavailable.message(), "Could not fetch metadata");
    assert_eq!(FileError::NoFileName.message(), "Couldn't parse filename");
}

#[test]
fn file_record_from_disk() {
    let f = MyFile::from_path(&std::path::PathBuf::from("/dev/null")).unwrap();
    assert_eq!(f.name, "null");
    assert_eq!(f.path, "/dev/null");
    assert_eq!(f.size_bytes, 0);
    assert_eq!(
        MyFile::from_path(&std::path::PathBuf::from("/no/such/file/here")).err(),
        Some(FileError::MetadataUnavailable)
    );
    assert_eq!(MyFile::from_path(&std::path::PathBuf::from("/")).err(), Some(FileError::NoFileName));
}

#[test]
fn tr_edit_deletes_then_replaces() {
    let both = TrConfig {
        path: None,
        file: None,
        delete: Some("b"),
        replace: vec!["aa", "c"],
        simulate: true,
    };
    assert_eq!(both.edit(Some("abab x".to_string())), Some("c x".to_string()));
    assert_eq!(both.edit(None), Some(String::new()));
    let only_delete = TrConfig { replace: vec![], ..both };
    assert_eq!(only_delete.edit(Some("abab".to_string())), Some("aa".to_string()));
    let neither = TrConfig { delete: None, ..only_delete };
    assert_eq!(neither.edit(Some("abab".to_string())), Some("abab".to_string()));
    assert_eq!(neither.edit(None), None);
}

#[test]
fn replace_with_empty_word_fills_every_boundary() {
    let mut content = Some("abc".to_string());
    assert_eq!(replace_words(&mut content, vec!["", "-"]), Some("-a-b-c-".to_string()));
}

#[test]
fn delete_and_replace_words() {
    let mut content = Some("one two one".to_string());
    assert_eq!(delete_words(&mut content, Some("one")), Some(" two ".to_string()));
    assert_eq!(content, Some("one two one".to_string()));
    assert_eq!(delete_words(&mut content, None), Some(String::new()));
    assert_eq!(delete_words(&mut None, Some("x")), Some(String::new()));
    assert_eq!(replace_words(&mut content, vec!["one", "1"]), Some("1 two 1".to_string()));
    assert_eq!(replace_words(&mut Some("aaa".to_string()), vec!["aa", "b"]), Some("ba".to_string()));
    assert_eq!(replace_words(&mut None, vec!["a", "b"]), Some(String::new()));
}

#[test]
fn tr_replace_needs_exactly_two_values() {
    let cfg = TrConfig { path: None, file: None, delete: None, replace: vec!["a", "b"], simulate: true };
    assert_eq!(cfg.parse_replace(), Some(vec!["a", "b"]));
    let cfg2 = TrConfig { replace: vec!["a", "b", "c"], ..cfg };
    assert_eq!(cfg2.parse_replace(), None);
    let cfg3 = TrConfig { replace: vec![], ..cfg2 };
    assert_eq!(cfg3.parse_replace(), None);
}

#[test]
fn grep_numbers_matching_lines_from_one() {
    let p = Pattern::compile("fo+").unwrap();
    let hits = matching_lines(&p, "foo\nbar\nxfoo2\r\nfo");
    assert_eq!(
        hits,
        vec![(1, "foo".to_string()), (3, "xfoo2".to_string()), (4, "fo".to_string())]
    );
    assert!(matching_lines(&p, "").is_empty());
}

#[test]
fn config_file_lists_are_kept_in_order() {
    let add = AddConfig { dirs: vec!["d"], files: vec!["b", "a"] };
    assert_eq!(add.parse_files().unwrap(), vec!["b", "a"]);
    assert_eq!(add.parse_dirs(&vec![true]).unwrap(), vec!["d"]);
    let rm = RemoveConfig { dirs: vec!["d", "e"], files: vec!["c"] };
    assert_eq!(rm.parse_files().unwrap(), vec!["c"]);
    assert_eq!(rm.parse_dirs(&vec![false, false]).err(), Some(FindError::NoValidRoots));
    let grep = GrepConfig { patterns: vec!["(", "x"], filenames: vec!["f1", "f2"] };
    assert_eq!(grep.parse_files().unwrap(), vec!["f1", "f2"]);
    assert_eq!(grep.parse_patterns().unwrap().len(), 1);
}

#[test]
fn rendered_output_is_one_path_per_line() {
    let mut plan = config(vec![r"\.txt$"], Some("8")).plan().unwrap();
    let text = render(&lines(plan.process_root(&data_tree())));
    assert_eq!(text, "./data/a.txt\n./data/sub/c.txt\n");
    assert_eq!(render(&Vec::new()), "");
}
