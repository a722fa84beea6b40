use envcmd::config::{list, Config, Kind};

#[test]
fn kind_names() {
    assert_eq!(Kind::Directory.name(), "directory");
    assert_eq!(Kind::Branch.name(), "branch");
}

#[test]
fn default_rule() {
    let cfg = Config::default();
    assert!(!cfg.asynchronous);
    assert!(cfg.kind == Kind::Directory);
    assert_eq!(cfg.target, "foo");
    assert_eq!(cfg.commands, vec!["echo 'bar'"]);
}

#[test]
fn list_lines_for_two_rules() {
    let rules = vec![
        Config {
            asynchronous: false,
            kind: Kind::Directory,
            target: String::from("proj"),
            commands: vec![String::from("echo a"), String::from("echo b")],
        },
        Config {
            asynchronous: true,
            kind: Kind::Branch,
            target: String::from("main"),
            commands: vec![String::from("make")],
        },
    ];
    let lines = list(&rules);
    assert_eq!(
        lines,
        vec![
            String::from("[\x1b[1m\x1b[32mI\x1b[0m] \x1b[1mproj\x1b[0m (directory) (sync)"),
            String::from("[\x1b[1m\x1b[32mI\x1b[0m] $ echo a"),
            String::from("[\x1b[1m\x1b[32mI\x1b[0m] $ echo b"),
            String::from("[\x1b[1m\x1b[32mI\x1b[0m] \x1b[1mmain\x1b[0m (branch) (async)"),
            String::from("[\x1b[1m\x1b[32mI\x1b[0m] $ make"),
        ]
    );
}

#[test]
fn list_of_no_rules_is_empty() {
    let lines = list(&Vec::new());
    assert!(lines.is_empty());
}

#[test]
fn list_rule_without_commands_has_only_heading() {
    let rules = vec![Config {
        asynchronous: false,
        kind: Kind::Directory,
        target: String::from("t"),
        commands: vec![],
    }];
    let lines = list(&rules);
    assert_eq!(
        lines,
        vec![String::from(
            "[\x1b[1m\x1b[32mI\x1b[0m] \x1b[1mt\x1b[0m (directory) (sync)"
        )]
    );
}
