use envcmd::cmd::{match_outcomes, run, run_group, Action, Env, GitBranch};
use envcmd::config::{Config, Kind};

fn rule(kind: Kind, target: &str, commands: &[&str], asynchronous: bool) -> Config {
    Config {
        asynchronous,
        kind,
        target: String::from(target),
        commands: commands.iter().map(|c| String::from(*c)).collect(),
    }
}

fn env_in(cwd: &str, git: GitBranch) -> Env {
    Env { cwd: String::from(cwd), git }
}

fn step_repr(a: &Action) -> String {
    match a {
        Action::Emit(line) => format!("emit {line}"),
        Action::RunSync(i, cmd) => format!("sync {i} {cmd}"),
        Action::SpawnAsync(i, cmd) => format!("spawn {i} {cmd}"),
        Action::JoinAll => String::from("join"),
    }
}

const ANNOUNCE_PROJ_DIR: &str = "[\x1b[1m\x1b[32mI\x1b[0m] \x1b[1mproj\x1b[0m (directory)";

#[test]
fn sync_rule_runs_commands_in_order() {
    let rules = vec![rule(Kind::Directory, "proj", &["echo A", "echo B"], false)];
    let env = env_in("/tmp/proj", GitBranch::Failed);
    let plan = run(&rules, &env);
    let reprs: Vec<String> = plan.iter().map(step_repr).collect();
    assert_eq!(
        reprs,
        vec![
            format!("emit {ANNOUNCE_PROJ_DIR}"),
            String::from("sync 0 echo A"),
            String::from("sync 1 echo B"),
            String::from("join"),
        ]
    );
}

#[test]
fn async_rule_spawns_and_joins_last() {
    let rules = vec![rule(Kind::Directory, "proj", &["echo A", "echo B"], true)];
    let env = env_in("/tmp/proj", GitBranch::Failed);
    let plan = run(&rules, &env);
    let reprs: Vec<String> = plan.iter().map(step_repr).collect();
    assert_eq!(
        reprs,
        vec![
            format!("emit {ANNOUNCE_PROJ_DIR}"),
            String::from("spawn 0 echo A"),
            String::from("spawn 1 echo B"),
            String::from("join"),
        ]
    );
    assert!(matches!(plan.last(), Some(Action::JoinAll)));
}

#[test]
fn non_matching_rule_contributes_nothing() {
    let rules = vec![rule(Kind::Directory, "elsewhere", &["echo A"], false)];
    let env = env_in("/tmp/proj", GitBranch::Failed);
    let plan = run(&rules, &env);
    assert_eq!(plan.len(), 1);
    assert!(matches!(plan[0], Action::JoinAll));
}

#[test]
fn empty_command_list_schedules_nothing() {
    let rules = vec![rule(Kind::Directory, "proj", &[], false)];
    let env = env_in("/tmp/proj", GitBranch::Failed);
    let plan = run(&rules, &env);
    let reprs: Vec<String> = plan.iter().map(step_repr).collect();
    assert_eq!(
        reprs,
        vec![format!("emit {ANNOUNCE_PROJ_DIR}"), String::from("join")]
    );
}

#[test]
fn rules_contribute_in_list_order() {
    let rules = vec![
        rule(Kind::Directory, "proj", &["echo one"], false),
        rule(Kind::Directory, "elsewhere", &["echo skipped"], false),
        rule(Kind::Directory, "proj", &["echo two"], false),
    ];
    let env = env_in("/tmp/proj", GitBranch::Failed);
    let plan = run(&rules, &env);
    let reprs: Vec<String> = plan.iter().map(step_repr).collect();
    assert_eq!(
        reprs,
        vec![
            format!("emit {ANNOUNCE_PROJ_DIR}"),
            String::from("sync 0 echo one"),
            format!("emit {ANNOUNCE_PROJ_DIR}"),
            String::from("sync 0 echo two"),
            String::from("join"),
        ]
    );
}

#[test]
fn matcher_consulted_once_per_rule_in_order() {
    let rules = vec![
        rule(Kind::Directory, "proj", &[], false),
        rule(Kind::Directory, "elsewhere", &[], false),
        rule(Kind::Branch, "main", &[], false),
        rule(Kind::Branch, "dev", &[], false),
    ];
    let env = env_in("/tmp/proj", GitBranch::Output(String::from("main\n")));
    let outcomes = match_outcomes(&rules, &env);
    assert_eq!(outcomes, vec![true, false, true, false]);
}

#[test]
fn engine_is_idempotent() {
    let rules = vec![
        rule(Kind::Directory, "proj", &["echo one"], false),
        rule(Kind::Branch, "main", &["echo two", "echo three"], true),
    ];
    let env = env_in("/tmp/proj", GitBranch::Output(String::from("main\n")));
    let first: Vec<String> = run(&rules, &env).iter().map(step_repr).collect();
    let second: Vec<String> = run(&rules, &env).iter().map(step_repr).collect();
    assert_eq!(first, second);
    assert_eq!(match_outcomes(&rules, &env), match_outcomes(&rules, &env));
}

#[test]
fn branch_rule_warns_when_not_a_repository() {
    let rules = vec![rule(Kind::Branch, "main", &["echo A"], false)];
    let env = env_in("/tmp/proj", GitBranch::NoRepository);
    let plan = run(&rules, &env);
    let reprs: Vec<String> = plan.iter().map(step_repr).collect();
    assert_eq!(
        reprs,
        vec![
            String::from("emit [\x1b[1m\x1b[33mW\x1b[0m] no git in current directory"),
            String::from("join"),
        ]
    );
}

#[test]
fn branch_rule_warns_when_query_fails() {
    let rules = vec![rule(Kind::Branch, "main", &["echo A"], false)];
    let env = env_in("/tmp/proj", GitBranch::Failed);
    let plan = run(&rules, &env);
    let reprs: Vec<String> = plan.iter().map(step_repr).collect();
    assert_eq!(
        reprs,
        vec![
            String::from("emit [\x1b[1m\x1b[33mW\x1b[0m] failed to read git branch"),
            String::from("join"),
        ]
    );
}

#[test]
fn undecodable_branch_output_is_a_silent_non_match() {
    let rules = vec![rule(Kind::Branch, "main", &["echo A"], false)];
    let env = env_in("/tmp/proj", GitBranch::Undecodable);
    let plan = run(&rules, &env);
    assert_eq!(plan.len(), 1);
    assert!(matches!(plan[0], Action::JoinAll));
}

#[test]
fn announce_names_branch_kind() {
    let rules = vec![rule(Kind::Branch, "main", &[], false)];
    let env = env_in("/tmp/proj", GitBranch::Output(String::from("main\n")));
    let plan = run(&rules, &env);
    let reprs: Vec<String> = plan.iter().map(step_repr).collect();
    assert_eq!(
        reprs,
        vec![
            String::from("emit [\x1b[1m\x1b[32mI\x1b[0m] \x1b[1mmain\x1b[0m (branch)"),
            String::from("join"),
        ]
    );
}

#[test]
fn run_group_appends_to_existing_plan() {
    let mut plan = vec![Action::Emit(String::from("heading"))];
    let commands = vec![String::from("echo A")];
    run_group(&commands, false, &mut plan);
    let reprs: Vec<String> = plan.iter().map(step_repr).collect();
    assert_eq!(
        reprs,
        vec![String::from("emit heading"), String::from("sync 0 echo A")]
    );
}
