use punt::action::{
    exec_outcome, exit_outcome, link_outcome, plan, prepare_action, Action, ExecReport,
    NO_EXIT_CODE,
};
use punt::order::key_less;
use punt::resolve::resolve_path;
use punt::schema::{config_from_yaml, parse_config, read_entry, ConfigError, Yaml};
use punt::tags::{is_active, merge_tags};
use punt::{Config, Entry, Error, FileType, GeneralSettings};

fn strings(v: &[&str]) -> Vec<String> {
    v.iter().map(|s| s.to_string()).collect()
}

fn text(s: &str) -> Yaml {
    Yaml::Text(s.to_string())
}

#[test]
fn general_settings_default() {
    let g = GeneralSettings::default();
    assert!(!g.verbose);
    assert!(g.default_tags.is_empty());
}

#[test]
fn merge_keeps_defaults_then_extras() {
    let merged = merge_tags(&strings(&["x"]), Some(&strings(&["y", "z"])));
    assert_eq!(merged, strings(&["x", "y", "z"]));
}

#[test]
fn merge_without_extras_keeps_defaults() {
    assert_eq!(merge_tags(&strings(&["x", "x"]), None), strings(&["x", "x"]));
    assert!(merge_tags(&Vec::new(), None).is_empty());
}

#[test]
fn merged_set_filters_like_the_union() {
    let merged = merge_tags(&strings(&["x"]), Some(&strings(&["y", "z"])));
    for t in ["x", "y", "z"] {
        assert!(is_active(&strings(&[t]), &merged));
    }
    assert!(!is_active(&strings(&["w"]), &merged));
}

#[test]
fn untagged_entry_is_always_active() {
    assert!(is_active(&Vec::new(), &Vec::new()));
    assert!(is_active(&Vec::new(), &strings(&["a", "b"])));
}

#[test]
fn tagged_entry_needs_a_shared_tag() {
    let tags = strings(&["a", "b"]);
    assert!(is_active(&tags, &strings(&["b", "c"])));
    assert!(!is_active(&tags, &strings(&["c", "d"])));
    assert!(!is_active(&tags, &Vec::new()));
    assert!(!is_active(&strings(&["A"]), &strings(&["a"])));
}

#[test]
fn normal_absolute_path_is_unchanged() {
    assert_eq!(resolve_path("/usr/local/bin"), Ok("/usr/local/bin".to_string()));
    assert_eq!(resolve_path("/"), Ok("/".to_string()));
}

#[test]
fn dot_segments_are_resolved() {
    assert_eq!(resolve_path("/a/./b/../c"), Ok("/a/c".to_string()));
    assert_eq!(resolve_path("/a//b/"), Ok("/a/b".to_string()));
}

#[test]
fn tilde_expands_to_an_absolute_path() {
    let r = resolve_path("~/foo").unwrap();
    assert!(r.starts_with('/'));
    assert!(r.ends_with("/foo"));
    assert!(!r.contains('~'));
}

#[test]
fn relative_path_becomes_absolute() {
    let r = resolve_path("some/dir/../file").unwrap();
    assert!(r.starts_with('/'));
    assert!(r.ends_with("/some/file"));
}

#[test]
fn unset_variable_fails_expansion() {
    assert_eq!(
        resolve_path("/x/$PUNT_NEVER_SET_VARIABLE_QZX/y"),
        Err(Error::Expand("PUNT_NEVER_SET_VARIABLE_QZX".to_string()))
    );
}

#[test]
fn exec_command_is_used_verbatim() {
    let r = prepare_action("echo $PUNT_NEVER_SET_VARIABLE_QZX ~/x", &FileType::Exec);
    assert_eq!(
        r,
        Ok(Action::Exec { command: "echo $PUNT_NEVER_SET_VARIABLE_QZX ~/x".to_string() })
    );
}

#[test]
fn link_resolves_source_and_destination() {
    let ft = FileType::Link { dest: "/home/u/./.vimrc".to_string() };
    let r = prepare_action("/etc/dotfiles/../vimrc", &ft);
    assert_eq!(
        r,
        Ok(Action::Link { source: "/etc/vimrc".to_string(), target: "/home/u/.vimrc".to_string() })
    );
}

#[test]
fn link_with_bad_destination_fails() {
    let ft = FileType::Link { dest: "$PUNT_NEVER_SET_VARIABLE_QZX/x".to_string() };
    assert_eq!(
        prepare_action("/etc/vimrc", &ft),
        Err(Error::Expand("PUNT_NEVER_SET_VARIABLE_QZX".to_string()))
    );
}

#[test]
fn exit_codes_map_to_outcomes() {
    assert_eq!(exit_outcome(Some(0)), Ok(()));
    assert_eq!(exit_outcome(Some(3)), Err(Error::Run(3)));
    assert_eq!(exit_outcome(None), Err(Error::Run(-1)));
    assert_eq!(NO_EXIT_CODE, -1);
}

#[test]
fn exec_reports_map_to_outcomes() {
    assert_eq!(exec_outcome(ExecReport::Exited(Some(0))), Ok(()));
    assert_eq!(exec_outcome(ExecReport::Exited(Some(3))), Err(Error::Run(3)));
    assert_eq!(
        exec_outcome(ExecReport::SpawnFailed("no shell".to_string())),
        Err(Error::CommandCreate("no shell".to_string()))
    );
    assert_eq!(
        exec_outcome(ExecReport::WaitFailed("lost".to_string())),
        Err(Error::Link("lost".to_string()))
    );
}

#[test]
fn link_results_map_to_outcomes() {
    assert_eq!(link_outcome(Ok(())), Ok(()));
    assert_eq!(
        link_outcome(Err("File exists".to_string())),
        Err(Error::Link("File exists".to_string()))
    );
}

#[test]
fn a_failing_entry_does_not_stop_the_next() {
    let config = Config {
        general: GeneralSettings::default(),
        files: vec![
            (
                "$PUNT_NEVER_SET_VARIABLE_QZX/a".to_string(),
                Entry { ft: FileType::Link { dest: "/tmp/a".to_string() }, tags: vec![] },
            ),
            ("echo b".to_string(), Entry { ft: FileType::Exec, tags: vec![] }),
            ("echo c".to_string(), Entry { ft: FileType::Exec, tags: strings(&["off"]) }),
            ("echo d".to_string(), Entry { ft: FileType::Exec, tags: strings(&["on"]) }),
        ],
    };
    let steps = plan(&config, &strings(&["on"]));
    assert_eq!(steps.len(), 3);
    assert_eq!(steps[0].key, "$PUNT_NEVER_SET_VARIABLE_QZX/a");
    assert_eq!(steps[0].action, Err(Error::Expand("PUNT_NEVER_SET_VARIABLE_QZX".to_string())));
    assert_eq!(steps[1].key, "echo b");
    assert_eq!(steps[1].action, Ok(Action::Exec { command: "echo b".to_string() }));
    assert_eq!(steps[2].key, "echo d");
    assert_eq!(steps[2].action, Ok(Action::Exec { command: "echo d".to_string() }));
}

#[test]
fn keys_compare_by_characters() {
    assert!(key_less("a", "b"));
    assert!(key_less("a", "ab"));
    assert!(!key_less("ab", "a"));
    assert!(!key_less("a", "a"));
    assert!(key_less("Z", "a"));
    assert!(key_less("", "a"));
}

#[test]
fn missing_general_and_tags_take_defaults() {
    let c = parse_config("files:\n  \"echo hi\":\n    type: exec\n").unwrap();
    assert_eq!(c.general, GeneralSettings { verbose: false, default_tags: vec![] });
    assert_eq!(c.files, vec![("echo hi".to_string(), Entry { ft: FileType::Exec, tags: vec![] })]);
}

#[test]
fn empty_mapping_is_an_empty_config() {
    let c = parse_config("{}").unwrap();
    assert!(c.files.is_empty());
    assert!(!c.general.verbose);
}

#[test]
fn link_without_dest_is_rejected() {
    assert_eq!(parse_config("files:\n  /a:\n    type: link\n"), Err(ConfigError::Schema));
}

#[test]
fn unknown_type_is_rejected() {
    assert_eq!(parse_config("files:\n  /a:\n    type: copy\n"), Err(ConfigError::Schema));
    assert_eq!(parse_config("files:\n  /a:\n    type: Link\n    dest: /b\n"), Err(ConfigError::Schema));
}

#[test]
fn wrong_types_are_rejected() {
    assert_eq!(parse_config("general:\n  verbose: 3\n"), Err(ConfigError::Schema));
    assert_eq!(parse_config("general:\n  default_tags: x\n"), Err(ConfigError::Schema));
    assert_eq!(parse_config("files: [a]\n"), Err(ConfigError::Schema));
    assert_eq!(parse_config("- a\n"), Err(ConfigError::Schema));
}

#[test]
fn bad_yaml_is_a_syntax_error() {
    assert!(matches!(parse_config("files: [a\n"), Err(ConfigError::Syntax(_))));
}

#[test]
fn full_config_parses_in_key_order() {
    let text = "general:\n  verbose: true\n  default_tags: [tagA, tagB]\nfiles:\n  \"echo hello\":\n    type: exec\n    tags: []\n  \"/path/or/$VAR/expr\":\n    type: link\n    dest: \"~/target/path\"\n    tags: [tagA]\n    note: ignored\n";
    let c = parse_config(text).unwrap();
    assert!(c.general.verbose);
    assert_eq!(c.general.default_tags, strings(&["tagA", "tagB"]));
    assert_eq!(
        c.files,
        vec![
            (
                "/path/or/$VAR/expr".to_string(),
                Entry {
                    ft: FileType::Link { dest: "~/target/path".to_string() },
                    tags: strings(&["tagA"]),
                },
            ),
            ("echo hello".to_string(), Entry { ft: FileType::Exec, tags: vec![] }),
        ]
    );
}

#[test]
fn entries_read_from_a_tree() {
    let entry = Yaml::Mapping(vec![
        (text("type"), text("link")),
        (text("dest"), text("/b")),
        (text("tags"), Yaml::List(vec![text("t")])),
    ]);
    assert_eq!(
        read_entry(&entry),
        Some(Entry { ft: FileType::Link { dest: "/b".to_string() }, tags: strings(&["t"]) })
    );
    let bad_tag = Yaml::Mapping(vec![
        (text("type"), text("exec")),
        (text("tags"), Yaml::List(vec![Yaml::Null])),
    ]);
    assert_eq!(read_entry(&bad_tag), None);
    let doc = Yaml::Mapping(vec![(
        text("files"),
        Yaml::Mapping(vec![
            (text("b"), Yaml::Mapping(vec![(text("type"), text("exec"))])),
            (text("a"), Yaml::Mapping(vec![(text("type"), text("exec"))])),
            (text("b"), Yaml::Mapping(vec![(text("type"), text("link")), (text("dest"), text("/d"))])),
        ]),
    )]);
    let c = config_from_yaml(&doc).unwrap();
    assert_eq!(
        c.files,
        vec![
            ("a".to_string(), Entry { ft: FileType::Exec, tags: vec![] }),
            ("b".to_string(), Entry { ft: FileType::Link { dest: "/d".to_string() }, tags: vec![] }),
        ]
    );
    assert_eq!(config_from_yaml(&Yaml::Null), Err(ConfigError::Schema));
}

#[test]
fn wide_variable_name_is_refused_with_its_name() {
    assert_eq!(resolve_path("/x/$éa_b/y"), Err(Error::Expand("éa_b".to_string())));
    assert_eq!(
        resolve_path("/$PUNT_NEVER_SET_VARIABLE_QZX/$ü"),
        Err(Error::Expand("ü".to_string()))
    );
}

#[test]
fn dollar_before_a_symbol_is_kept() {
    assert_eq!(resolve_path("/x/$→"), Ok("/x/$→".to_string()));
}

#[test]
fn wide_variable_in_a_link_fails_only_that_entry() {
    let ft = FileType::Link { dest: "/home/$ñame".to_string() };
    assert_eq!(prepare_action("/etc/vimrc", &ft), Err(Error::Expand("ñame".to_string())));
}

#[test]
fn numbers_and_booleans_read_as_text() {
    let c = parse_config("general:\n  default_tags: [1, true]\nfiles:\n  2:\n    type: link\n    dest: 3\n").unwrap();
    assert_eq!(c.general.default_tags, strings(&["1", "true"]));
    assert_eq!(
        c.files,
        vec![("2".to_string(), Entry { ft: FileType::Link { dest: "3".to_string() }, tags: vec![] })]
    );
    assert_eq!(parse_config("general:\n  default_tags: [~]\n"), Err(ConfigError::Schema));
}
