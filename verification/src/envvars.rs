//! The environment-variable front end's pure logic: picking the relevant
//! variables, parsing a `ENVCMD_<KIND>_<TARGET>[_ASYNC]` key into a rule, and
//! scheduling the commands held in a variable's value.

use vstd::prelude::*;
use vstd::slice::slice_subrange;
use crate::cmd::{self, Action, ActionV, Env, EnvV};
use crate::text;

verus! {

/// The match kind named in an environment variable key.
#[derive(Clone, Copy, PartialEq, Eq, Structural, Debug)]
pub enum Kind {
    Dir,
    Branch,
}

/// Whether an environment variable belongs to this tool's rules: its key
/// starts with the tool's prefix and is neither of the two setting keys.
pub open spec fn include_env_vars_spec(key: Seq<char>) -> bool {
    text::has_prefix(key, "ENVCMD"@) && key != "ENVCMD_DELIMITER"@ && key != "ENVCMD_SEPARATOR"@
}

/// Picks the rule variables: related to the tool, but not its settings.
pub fn include_env_vars(var: &(String, String)) -> (r: bool)
    ensures
        r == include_env_vars_spec(var.0@),
{
    let key = var.0.as_str();
    text::starts_with_str(key, "ENVCMD") && !text::str_eq(key, "ENVCMD_DELIMITER") && !text::str_eq(
        key,
        "ENVCMD_SEPARATOR",
    )
}

/// The kind a key chunk names, `None` for anything misspelt.
pub open spec fn normalise_kind_spec(kind: Seq<char>) -> Option<Kind> {
    if kind == "DIR"@ {
        Some(Kind::Dir)
    } else if kind == "BRANCH"@ {
        Some(Kind::Branch)
    } else {
        None
    }
}

/// Normalises a user-written string to a [`Kind`], defaulting to `None` for
/// misspelt values.
pub fn normalise_kind(kind: &str) -> (r: Option<Kind>)
    ensures
        r == normalise_kind_spec(kind@),
{
    if text::str_eq(kind, "DIR") {
        Some(Kind::Dir)
    } else if text::str_eq(kind, "BRANCH") {
        Some(Kind::Branch)
    } else {
        None
    }
}

/// Each chunk lower-cased.
pub open spec fn lower_all(parts: Seq<Seq<char>>) -> Seq<Seq<char>> {
    Seq::new(parts.len(), |i: int| text::lower_of(parts[i]))
}

/// Lower-cases the target chunks and joins them with the separator.
pub fn normalise_target(target: &[String], separator: &str) -> (r: String)
    ensures
        r@ == text::join_with(lower_all(target.deep_view()), separator@),
{
    let mut lowered: Vec<String> = Vec::new();
    let n = target.len();
    let mut i: usize = 0;
    while i < n
        invariant
            i <= n,
            n == target@.len(),
            target.deep_view().len() == target@.len(),
            lowered.deep_view() =~= lower_all(target.deep_view()).take(i as int),
        decreases n - i,
    {
        let chunk = vstd::slice::slice_index_get(target, i);
        let ghost dv0 = lowered.deep_view();
        lowered.push(text::lowercase(chunk.as_str()));
        proof {
            assert(lowered.deep_view() =~= dv0.push(text::lower_of(target.deep_view()[i as int])));
            assert(lowered.deep_view() =~= lower_all(target.deep_view()).take(i + 1));
        }
        i += 1;
    }
    proof {
        assert(lower_all(target.deep_view()).take(n as int) =~= lower_all(target.deep_view()));
    }
    text::join_strings(&lowered, separator)
}

/// Whether the named kind's target matches the environment snapshot.
pub open spec fn kind_matches_target_spec(kind: Kind, target: Seq<char>, env: EnvV) -> bool {
    (kind == Kind::Dir && cmd::dir_matches(target, env.cwd)) || (kind == Kind::Branch
        && cmd::branch_matches(target, env.git))
}

/// Checks the named kind's target against the environment snapshot.
pub fn kind_matches_target(kind: Kind, target: &str, env: &Env) -> (r: bool)
    ensures
        r == kind_matches_target_spec(kind, target@, env@),
{
    (kind == Kind::Dir && cmd::dir_match(target, env.cwd.as_str())) || (kind == Kind::Branch
        && cmd::branch_match(target, &env.git))
}

/// Why a rule key was rejected.
#[derive(Clone, Copy, PartialEq, Eq, Structural, Debug)]
pub enum KeyError {
    /// An `_ASYNC`-suffixed key with fewer than four `_`-separated chunks.
    BadAsyncFormat,
    /// A key with fewer than three `_`-separated chunks.
    BadFormat,
    /// The kind chunk names no known kind.
    UnknownKind,
}

/// A rule parsed from one environment variable key.
pub struct EnvRule {
    pub kind: Kind,
    pub target: String,
    pub asynchronous: bool,
}

/// The mathematical value of an [`EnvRule`].
pub struct EnvRuleV {
    pub kind: Kind,
    pub target: Seq<char>,
    pub asynchronous: bool,
}

impl View for EnvRule {
    type V = EnvRuleV;

    open spec fn view(&self) -> EnvRuleV {
        EnvRuleV { kind: self.kind, target: self.target@, asynchronous: self.asynchronous }
    }
}

/// What parsing a `ENVCMD_<KIND>_<TARGET>[_ASYNC]` key yields: the kind, the
/// lower-cased target chunks joined with the separator, and whether the
/// commands run asynchronously — or why the key is rejected.
pub open spec fn parse_key_spec(key: Seq<char>, separator: Seq<char>) -> Result<
    EnvRuleV,
    KeyError,
> {
    let chunks = text::split_spec(key, "_"@);
    let asynchronous = chunks.len() > 0 && chunks.last() == "ASYNC"@;
    if asynchronous && chunks.len() < 4 {
        Err(KeyError::BadAsyncFormat)
    } else if !asynchronous && chunks.len() < 3 {
        Err(KeyError::BadFormat)
    } else {
        match normalise_kind_spec(chunks[1]) {
            None => Err(KeyError::UnknownKind),
            Some(kind) => {
                let target_chunks = if asynchronous {
                    chunks.subrange(2, chunks.len() - 1)
                } else {
                    chunks.skip(2)
                };
                Ok(
                    EnvRuleV {
                        kind,
                        target: text::join_with(lower_all(target_chunks), separator),
                        asynchronous,
                    },
                )
            },
        }
    }
}

/// Parses one rule key, rejecting malformed keys exactly as
/// [`parse_key_spec`] says.
pub fn parse_key(key: &str, separator: &str) -> (r: Result<EnvRule, KeyError>)
    ensures
        r matches Ok(er) ==> parse_key_spec(key@, separator@) == Ok::<EnvRuleV, KeyError>(er@),
        r matches Err(e) ==> parse_key_spec(key@, separator@) == Err::<EnvRuleV, KeyError>(e),
{
    let chunks = text::split_str(key, "_");
    let n = chunks.len();
    proof {
        assert(chunks.deep_view().len() == chunks@.len());
    }
    let asynchronous = n > 0 && text::str_eq(chunks[n - 1].as_str(), "ASYNC");
    if asynchronous && n < 4 {
        return Err(KeyError::BadAsyncFormat);
    }
    if !asynchronous && n < 3 {
        return Err(KeyError::BadFormat);
    }
    match normalise_kind(chunks[1].as_str()) {
        None => Err(KeyError::UnknownKind),
        Some(kind) => {
            let target_chunks: &[String] = if asynchronous {
                slice_subrange(chunks.as_slice(), 2, n - 1)
            } else {
                slice_subrange(chunks.as_slice(), 2, n)
            };
            proof {
                let cv = chunks.deep_view();
                if asynchronous {
                    assert(target_chunks.deep_view() =~= cv.subrange(2, cv.len() - 1));
                } else {
                    assert(target_chunks.deep_view() =~= cv.skip(2));
                }
            }
            let target = normalise_target(target_chunks, separator);
            Ok(EnvRule { kind, target, asynchronous })
        },
    }
}

/// Splits a variable's value into commands on the delimiter and lays out the
/// scheduler's steps for them — one per command, in order, blocking or
/// background as the flag says — ending with the join of every background
/// command.
pub fn run_commands(val: &str, delimiter: &str, asynchronous: bool) -> (plan: Vec<Action>)
    ensures
        plan.deep_view() == cmd::group_plan(text::split_spec(val@, delimiter@), asynchronous)
            + seq![ActionV::JoinAll],
{
    let pieces = text::split_str(val, delimiter);
    let mut plan: Vec<Action> = Vec::new();
    cmd::run_group(&pieces, asynchronous, &mut plan);
    let ghost dv0 = plan.deep_view();
    plan.push(Action::JoinAll);
    proof {
        assert(plan.deep_view() =~= dv0.push(ActionV::JoinAll));
        assert(plan.deep_view() =~= cmd::group_plan(
            text::split_spec(val@, delimiter@),
            asynchronous,
        ) + seq![ActionV::JoinAll]);
    }
    plan
}

} // verus!
