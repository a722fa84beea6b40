//! The rule engine: matching rules against a snapshot of the environment and
//! laying out the ordered execution plan — log lines to emit, commands to run
//! blocking or to start on a background thread, and the final join of every
//! background command.
//!
//! Join policy: background commands from every matched rule are accumulated
//! into one pool and joined once, after the last rule, so a later rule's
//! commands may overlap with an earlier rule's still-running background
//! commands.

use vstd::prelude::*;
use vstd::seq_lib::lemma_flatten_concat;
use crate::config::{Config, ConfigV, Kind};
use crate::output;
use crate::text;

verus! {

/// The outcome of asking git for the current branch.
pub enum GitBranch {
    /// The query exited successfully; holds its raw standard output.
    Output(String),
    /// The query exited successfully but its output was not valid text.
    Undecodable,
    /// The query exited with status 128: not inside a git repository.
    NoRepository,
    /// The query exited with any other non-zero status.
    Failed,
}

/// The mathematical value of a [`GitBranch`].
pub enum GitBranchV {
    Output(Seq<char>),
    Undecodable,
    NoRepository,
    Failed,
}

impl View for GitBranch {
    type V = GitBranchV;

    open spec fn view(&self) -> GitBranchV {
        match self {
            GitBranch::Output(s) => GitBranchV::Output(s@),
            GitBranch::Undecodable => GitBranchV::Undecodable,
            GitBranch::NoRepository => GitBranchV::NoRepository,
            GitBranch::Failed => GitBranchV::Failed,
        }
    }
}

/// A snapshot of the environment the matcher consults: the current working
/// directory's path and the outcome of the git branch query.
pub struct Env {
    pub cwd: String,
    pub git: GitBranch,
}

/// The mathematical value of an [`Env`].
pub struct EnvV {
    pub cwd: Seq<char>,
    pub git: GitBranchV,
}

impl View for Env {
    type V = EnvV;

    open spec fn view(&self) -> EnvV {
        EnvV { cwd: self.cwd@, git: self.git@ }
    }
}

/// Whether a directory rule's target matches: the final segment of the
/// working directory's path equals the target exactly.
pub open spec fn dir_matches(target: Seq<char>, cwd: Seq<char>) -> bool {
    text::last_segment(cwd) == Some(target)
}

/// Whether a branch rule's target matches: the branch query succeeded and its
/// output, with trailing whitespace removed, equals the target exactly. Every
/// failure of the query counts as a non-match.
pub open spec fn branch_matches(target: Seq<char>, git: GitBranchV) -> bool {
    match git {
        GitBranchV::Output(out) => text::trim_trailing(out) == target,
        _ => false,
    }
}

/// Whether a rule matches the environment snapshot.
pub open spec fn rule_matches(cfg: ConfigV, env: EnvV) -> bool {
    match cfg.kind {
        Kind::Directory => dir_matches(cfg.target, env.cwd),
        Kind::Branch => branch_matches(cfg.target, env.git),
    }
}

/// Decides whether a directory target matches the working directory's path.
pub fn dir_match(target: &str, cwd: &str) -> (r: bool)
    ensures
        r == dir_matches(target@, cwd@),
{
    match text::file_name(cwd) {
        Some(seg) => text::str_eq(seg, target),
        None => false,
    }
}

/// Decides whether a branch target matches the branch query's outcome.
pub fn branch_match(target: &str, git: &GitBranch) -> (r: bool)
    ensures
        r == branch_matches(target@, git@),
{
    match git {
        GitBranch::Output(out) => {
            let trimmed = text::trim_trailing_spaces(out.as_str());
            text::str_eq(trimmed, target)
        },
        _ => false,
    }
}

/// Decides that a rule does not match the environment snapshot.
pub fn no_match(cfg: &Config, env: &Env) -> (r: bool)
    ensures
        r == !rule_matches(cfg@, env@),
{
    match cfg.kind {
        Kind::Directory => !dir_match(cfg.target.as_str(), env.cwd.as_str()),
        Kind::Branch => !branch_match(cfg.target.as_str(), &env.git),
    }
}

/// One step of the execution plan the engine lays out. The unverified front
/// end performs the steps strictly in order.
pub enum Action {
    /// Print this log line.
    Emit(String),
    /// Run this command (with its zero-based ordinal) and block until its
    /// process has exited and both its streams are drained.
    RunSync(usize, String),
    /// Start this command (with its zero-based ordinal) on a background
    /// thread and continue at once.
    SpawnAsync(usize, String),
    /// Join every background command started so far.
    JoinAll,
}

/// The mathematical value of an [`Action`].
pub enum ActionV {
    Emit(Seq<char>),
    RunSync(int, Seq<char>),
    SpawnAsync(int, Seq<char>),
    JoinAll,
}

impl View for Action {
    type V = ActionV;

    open spec fn view(&self) -> ActionV {
        match self {
            Action::Emit(line) => ActionV::Emit(line@),
            Action::RunSync(i, cmd) => ActionV::RunSync(*i as int, cmd@),
            Action::SpawnAsync(i, cmd) => ActionV::SpawnAsync(*i as int, cmd@),
            Action::JoinAll => ActionV::JoinAll,
        }
    }
}

impl DeepView for Action {
    type V = ActionV;

    open spec fn deep_view(&self) -> ActionV {
        self.view()
    }
}

/// The warning lines that evaluating a rule's match emits: a failed branch
/// query warns but only makes the rule a non-match.
pub open spec fn warning_lines(cfg: ConfigV, env: EnvV) -> Seq<Seq<char>> {
    if cfg.kind == Kind::Branch {
        match env.git {
            GitBranchV::NoRepository => seq![output::warn_line_spec("no git in current directory"@)],
            GitBranchV::Failed => seq![output::warn_line_spec("failed to read git branch"@)],
            _ => Seq::empty(),
        }
    } else {
        Seq::empty()
    }
}

/// The announcement logged for a matched rule: its target in bold and its
/// kind.
pub open spec fn announce_spec(cfg: ConfigV) -> Seq<char> {
    output::info_line_spec("\x1b[1m"@ + cfg.target + "\x1b[0m ("@ + cfg.kind.name_spec() + ")"@)
}

/// The scheduler's steps for one command list: one step per command, in list
/// order, each carrying the command's zero-based ordinal; blocking steps when
/// the group is synchronous, background steps when it is asynchronous.
pub open spec fn group_plan(commands: Seq<Seq<char>>, asynchronous: bool) -> Seq<ActionV> {
    Seq::new(
        commands.len(),
        |i: int|
            if asynchronous {
                ActionV::SpawnAsync(i, commands[i])
            } else {
                ActionV::RunSync(i, commands[i])
            },
    )
}

/// The steps one rule contributes: its match warnings, then — only when it
/// matches — its announcement and its scheduled commands.
pub open spec fn rule_plan(cfg: ConfigV, env: EnvV) -> Seq<ActionV> {
    warning_lines(cfg, env).map_values(|l: Seq<char>| ActionV::Emit(l)) + if rule_matches(
        cfg,
        env,
    ) {
        seq![ActionV::Emit(announce_spec(cfg))] + group_plan(cfg.commands, cfg.asynchronous)
    } else {
        Seq::empty()
    }
}

/// The steps of all rules, in the order the configuration lists them.
pub open spec fn rules_plan(cfgs: Seq<ConfigV>, env: EnvV) -> Seq<ActionV> {
    cfgs.map_values(|c: ConfigV| rule_plan(c, env)).flatten()
}

/// The engine's whole plan: every rule's steps in order, then the join of all
/// background commands.
pub open spec fn engine_plan(cfgs: Seq<ConfigV>, env: EnvV) -> Seq<ActionV> {
    rules_plan(cfgs, env) + seq![ActionV::JoinAll]
}

/// Lays out the scheduler's steps for one command list, appending to `plan`.
pub fn run_group(commands: &Vec<String>, asynchronous: bool, plan: &mut Vec<Action>)
    ensures
        final(plan).deep_view() == old(plan).deep_view() + group_plan(
            commands.deep_view(),
            asynchronous,
        ),
{
    let ghost base = old(plan).deep_view();
    let mut i: usize = 0;
    while i < commands.len()
        invariant
            i <= commands@.len(),
            commands.deep_view().len() == commands@.len(),
            plan.deep_view() =~= base + group_plan(commands.deep_view(), asynchronous).take(
                i as int,
            ),
        decreases commands@.len() - i,
    {
        let cmd = commands[i].clone();
        let ghost dv0 = plan.deep_view();
        if asynchronous {
            plan.push(Action::SpawnAsync(i, cmd));
        } else {
            plan.push(Action::RunSync(i, cmd));
        }
        proof {
            let g = group_plan(commands.deep_view(), asynchronous);
            assert(plan.deep_view() =~= dv0.push(g[i as int]));
            assert(plan.deep_view() =~= base + g.take(i + 1));
        }
        i += 1;
    }
    proof {
        let g = group_plan(commands.deep_view(), asynchronous);
        assert(g.take(commands@.len() as int) =~= g);
    }
}

/// Lays out the steps one rule contributes, appending to `plan`.
fn run_rule(cfg: &Config, env: &Env, plan: &mut Vec<Action>)
    ensures
        final(plan).deep_view() == old(plan).deep_view() + rule_plan(cfg@, env@),
{
    let ghost base = old(plan).deep_view();
    match cfg.kind {
        Kind::Branch => {
            match &env.git {
                GitBranch::NoRepository => {
                    let ghost dv0 = plan.deep_view();
                    plan.push(Action::Emit(output::warn_line("no git in current directory")));
                    proof {
                        assert(plan.deep_view() =~= dv0.push(
                            ActionV::Emit(output::warn_line_spec("no git in current directory"@)),
                        ));
                    }
                },
                GitBranch::Failed => {
                    let ghost dv0 = plan.deep_view();
                    plan.push(Action::Emit(output::warn_line("failed to read git branch")));
                    proof {
                        assert(plan.deep_view() =~= dv0.push(
                            ActionV::Emit(output::warn_line_spec("failed to read git branch"@)),
                        ));
                    }
                },
                _ => {},
            }
        },
        Kind::Directory => {},
    }
    proof {
        assert(plan.deep_view() =~= base + warning_lines(cfg@, env@).map_values(
            |l: Seq<char>| ActionV::Emit(l),
        ));
    }
    if !no_match(cfg, env) {
        let mut msg = String::from_str("\x1b[1m");
        msg.append(cfg.target.as_str());
        msg.append("\x1b[0m (");
        msg.append(cfg.kind.name());
        msg.append(")");
        let ghost dv1 = plan.deep_view();
        plan.push(Action::Emit(output::info_line(msg.as_str())));
        proof {
            assert(msg@ =~= "\x1b[1m"@ + cfg@.target + "\x1b[0m ("@ + cfg@.kind.name_spec()
                + ")"@);
            assert(plan.deep_view() =~= dv1.push(ActionV::Emit(announce_spec(cfg@))));
        }
        run_group(&cfg.commands, cfg.asynchronous, plan);
        proof {
            assert(plan.deep_view() =~= base + rule_plan(cfg@, env@));
        }
    } else {
        proof {
            assert(plan.deep_view() =~= base + rule_plan(cfg@, env@));
        }
    }
}

/// Runs the engine over the ordered rule list: evaluates the matcher once per
/// rule, in list order, and returns the whole execution plan, ending with the
/// join of all background commands.
pub fn run(rules: &Vec<Config>, env: &Env) -> (plan: Vec<Action>)
    ensures
        plan.deep_view() == engine_plan(rules.deep_view(), env@),
{
    let mut plan: Vec<Action> = Vec::new();
    let mut i: usize = 0;
    while i < rules.len()
        invariant
            i <= rules@.len(),
            rules.deep_view().len() == rules@.len(),
            plan.deep_view() =~= rules_plan(rules.deep_view().take(i as int), env@),
        decreases rules@.len() - i,
    {
        run_rule(&rules[i], env, &mut plan);
        proof {
            let dvr = rules.deep_view();
            let f = |c: ConfigV| rule_plan(c, env@);
            assert(dvr.take(i + 1).map_values(f) =~= dvr.take(i as int).map_values(f).push(
                rule_plan(dvr[i as int], env@),
            ));
            dvr.take(i as int).map_values(f).lemma_flatten_push(rule_plan(dvr[i as int], env@));
            assert(rules@[i as int]@ == dvr[i as int]);
            assert(plan.deep_view() =~= rules_plan(dvr.take(i + 1), env@));
        }
        i += 1;
    }
    let ghost dv2 = plan.deep_view();
    plan.push(Action::JoinAll);
    proof {
        assert(rules.deep_view().take(rules@.len() as int) =~= rules.deep_view());
        assert(plan.deep_view() =~= dv2.push(ActionV::JoinAll));
        assert(plan.deep_view() =~= engine_plan(rules.deep_view(), env@));
    }
    plan
}

/// Evaluates the matcher for each rule, in list order, and reports each
/// outcome.
pub fn match_outcomes(rules: &Vec<Config>, env: &Env) -> (outcomes: Vec<bool>)
    ensures
        outcomes@.len() == rules@.len(),
        forall|i: int|
            0 <= i < rules@.len() ==> outcomes@[i] == rule_matches(rules.deep_view()[i], env@),
{
    let mut outcomes: Vec<bool> = Vec::new();
    let mut i: usize = 0;
    while i < rules.len()
        invariant
            i <= rules@.len(),
            outcomes@.len() == i,
            rules.deep_view().len() == rules@.len(),
            forall|j: int|
                0 <= j < i ==> outcomes@[j] == rule_matches(rules.deep_view()[j], env@),
        decreases rules@.len() - i,
    {
        let m = !no_match(&rules[i], env);
        outcomes.push(m);
        i += 1;
    }
    outcomes
}

/// Law (synchronous order): with the asynchronous flag off, the scheduler
/// lays out exactly one blocking step per command, in list order; the step
/// for an earlier command stands strictly before the step for a later one, so
/// an earlier command's process has exited and its output is complete before
/// a later command starts.
pub proof fn lemma_sync_group_ordered(commands: Seq<Seq<char>>, i: int, j: int)
    requires
        0 <= i < j < commands.len(),
    ensures
        group_plan(commands, false).len() == commands.len(),
        group_plan(commands, false)[i] == ActionV::RunSync(i, commands[i]),
        group_plan(commands, false)[j] == ActionV::RunSync(j, commands[j]),
{
}

/// Law (asynchronous join): with the asynchronous flag on, the scheduler lays
/// out one background step per command, in list order, and the engine's plan
/// always ends with the join of every background command: every background
/// step stands strictly before that final join, so every command has
/// completed before the run returns.
pub proof fn lemma_async_group_joined(cfgs: Seq<ConfigV>, env: EnvV)
    ensures
        engine_plan(cfgs, env).len() >= 1,
        engine_plan(cfgs, env).last() == ActionV::JoinAll,
        forall|k: int, o: int, c: Seq<char>|
            0 <= k < engine_plan(cfgs, env).len() && engine_plan(cfgs, env)[k]
                == ActionV::SpawnAsync(o, c) ==> k < engine_plan(cfgs, env).len() - 1,
{
    let plan = engine_plan(cfgs, env);
    assert(plan.last() == ActionV::JoinAll);
    assert forall|k: int, o: int, c: Seq<char>|
        0 <= k < plan.len() && plan[k] == ActionV::SpawnAsync(o, c) implies k < plan.len()
        - 1 by {
        if k == plan.len() - 1 {
            assert(plan[k] == ActionV::JoinAll);
        }
    }
}

/// A rule that matches emits no warning: warnings come only from a failed
/// branch query, which never matches.
pub proof fn lemma_matched_rule_warns_nothing(cfg: ConfigV, env: EnvV)
    requires
        rule_matches(cfg, env),
    ensures
        warning_lines(cfg, env) == Seq::<Seq<char>>::empty(),
{
}

/// Law (empty command list): a matching rule with an empty command list is
/// announced, but the scheduler lays out no command step at all — its whole
/// contribution is the one announcement line.
pub proof fn lemma_empty_commands_schedule_nothing(cfg: ConfigV, env: EnvV)
    requires
        cfg.commands.len() == 0,
        rule_matches(cfg, env),
    ensures
        rule_plan(cfg, env) =~= seq![ActionV::Emit(announce_spec(cfg))],
        forall|k: int|
            0 <= k < rule_plan(cfg, env).len() ==> !(rule_plan(cfg, env)[k] is RunSync) && !(
            rule_plan(cfg, env)[k] is SpawnAsync),
{
    lemma_matched_rule_warns_nothing(cfg, env);
    assert(warning_lines(cfg, env).map_values(|l: Seq<char>| ActionV::Emit(l)) =~= Seq::<
        ActionV,
    >::empty());
    assert(group_plan(cfg.commands, cfg.asynchronous) =~= Seq::<ActionV>::empty());
}

/// Law (one matcher consultation per rule, in order): the engine's plan
/// decomposes rule by rule, in the order the configuration lists them; each
/// rule contributes exactly its own steps, gated by its own match outcome,
/// whatever the other rules' outcomes are.
pub proof fn lemma_engine_per_rule(cfgs: Seq<ConfigV>, env: EnvV, i: int)
    requires
        0 <= i < cfgs.len(),
    ensures
        rules_plan(cfgs, env) == rules_plan(cfgs.take(i), env) + rule_plan(cfgs[i], env)
            + rules_plan(cfgs.skip(i + 1), env),
    decreases cfgs.len(),
{
    let f = |c: ConfigV| rule_plan(c, env);
    assert(cfgs =~= cfgs.take(i) + seq![cfgs[i]] + cfgs.skip(i + 1));
    assert(cfgs.map_values(f) =~= cfgs.take(i).map_values(f) + seq![cfgs[i]].map_values(f)
        + cfgs.skip(i + 1).map_values(f));
    lemma_flatten_concat(
        cfgs.take(i).map_values(f) + seq![cfgs[i]].map_values(f),
        cfgs.skip(i + 1).map_values(f),
    );
    lemma_flatten_concat(cfgs.take(i).map_values(f), seq![cfgs[i]].map_values(f));
    assert(seq![cfgs[i]].map_values(f) =~= seq![rule_plan(cfgs[i], env)]);
    seq![rule_plan(cfgs[i], env)].lemma_flatten_singleton();
    assert(rules_plan(cfgs, env) =~= rules_plan(cfgs.take(i), env) + rule_plan(cfgs[i], env)
        + rules_plan(cfgs.skip(i + 1), env));
}

/// Law (idempotence): the engine is a function of the rule list and the
/// environment snapshot alone, so two runs against an unchanged configuration
/// and an unchanged environment lay out the same plan and match the same set
/// of rules.
pub proof fn lemma_engine_idempotent(
    cfgs1: Seq<ConfigV>,
    cfgs2: Seq<ConfigV>,
    env1: EnvV,
    env2: EnvV,
)
    requires
        cfgs1 == cfgs2,
        env1 == env2,
    ensures
        engine_plan(cfgs1, env1) == engine_plan(cfgs2, env2),
        forall|i: int|
            0 <= i < cfgs1.len() ==> rule_matches(cfgs1[i], env1) == rule_matches(cfgs2[i], env2),
{
}

} // verus!
