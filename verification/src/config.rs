//! The rule data model: a rule's match kind, target, command list and
//! concurrency flag, together with the listing lines the tool prints for a
//! loaded configuration.

use vstd::prelude::*;
use crate::output;

verus! {

/// What a rule's target is compared against: the name of the current working
/// directory, or the current git branch.
#[derive(Clone, Copy, PartialEq, Eq, Structural, Debug)]
pub enum Kind {
    Directory,
    Branch,
}

impl Kind {
    /// The kind's lower-case name, as printed in log lines.
    pub open spec fn name_spec(self) -> Seq<char> {
        match self {
            Kind::Directory => "directory"@,
            Kind::Branch => "branch"@,
        }
    }

    /// Returns the kind's lower-case name.
    pub fn name(&self) -> (s: &'static str)
        ensures
            s@ == self.name_spec(),
    {
        match self {
            Kind::Directory => "directory",
            Kind::Branch => "branch",
        }
    }
}

/// One configured rule: when the target matches, run the commands, either one
/// after the other or concurrently.
pub struct Config {
    pub asynchronous: bool,
    pub kind: Kind,
    pub target: String,
    pub commands: Vec<String>,
}

/// The mathematical value of a [`Config`].
pub struct ConfigV {
    pub asynchronous: bool,
    pub kind: Kind,
    pub target: Seq<char>,
    pub commands: Seq<Seq<char>>,
}

impl View for Config {
    type V = ConfigV;

    open spec fn view(&self) -> ConfigV {
        ConfigV {
            asynchronous: self.asynchronous,
            kind: self.kind,
            target: self.target@,
            commands: self.commands.deep_view(),
        }
    }
}

impl DeepView for Config {
    type V = ConfigV;

    open spec fn deep_view(&self) -> ConfigV {
        self.view()
    }
}

impl Default for Config {
    /// The rule written into a freshly created configuration.
    fn default() -> (c: Config)
        ensures
            c@.asynchronous == false,
            c@.kind == Kind::Directory,
            c@.target == "foo"@,
            c@.commands =~= seq!["echo 'bar'"@],
    {
        let mut commands: Vec<String> = Vec::new();
        commands.push(String::from_str("echo 'bar'"));
        Config { asynchronous: false, kind: Kind::Directory, target: String::from_str("foo"), commands }
    }
}

/// The status word shown for a rule in the listing.
pub open spec fn status_spec(asynchronous: bool) -> Seq<char> {
    if asynchronous {
        "async"@
    } else {
        "sync"@
    }
}

/// The heading line printed for one rule in the listing: its target in bold,
/// its kind and its status word.
pub open spec fn list_header_spec(cfg: ConfigV) -> Seq<char> {
    output::info_line_spec(
        "\x1b[1m"@ + cfg.target + "\x1b[0m ("@ + cfg.kind.name_spec() + ") ("@ + status_spec(
            cfg.asynchronous,
        ) + ")"@,
    )
}

/// The line printed for one command of a rule in the listing.
pub open spec fn list_command_spec(cmd: Seq<char>) -> Seq<char> {
    output::info_line_spec("$ "@ + cmd)
}

/// All listing lines for one rule: its heading, then one line per command.
pub open spec fn rule_lines_spec(cfg: ConfigV) -> Seq<Seq<char>> {
    seq![list_header_spec(cfg)] + cfg.commands.map_values(|c: Seq<char>| list_command_spec(c))
}

/// All listing lines for an ordered rule list.
pub open spec fn list_lines_spec(cfgs: Seq<ConfigV>) -> Seq<Seq<char>> {
    cfgs.map_values(|c: ConfigV| rule_lines_spec(c)).flatten()
}

fn rule_lines(cfg: &Config) -> (lines: Vec<String>)
    ensures
        lines.deep_view() == rule_lines_spec(cfg@),
{
    let mut lines: Vec<String> = Vec::new();
    let mut header = String::from_str("\x1b[1m");
    header.append(cfg.target.as_str());
    header.append("\x1b[0m (");
    header.append(cfg.kind.name());
    header.append(") (");
    header.append(if cfg.asynchronous {
        "async"
    } else {
        "sync"
    });
    header.append(")");
    lines.push(output::info_line(header.as_str()));
    proof {
        assert(lines.deep_view()[0] =~= list_header_spec(cfg@));
    }
    let mut i: usize = 0;
    while i < cfg.commands.len()
        invariant
            i <= cfg.commands@.len(),
            lines.deep_view() =~= seq![list_header_spec(cfg@)] + cfg@.commands.take(
                i as int,
            ).map_values(|c: Seq<char>| list_command_spec(c)),
        decreases cfg.commands@.len() - i,
    {
        let mut body = String::from_str("$ ");
        body.append(cfg.commands[i].as_str());
        let ghost dv0 = lines.deep_view();
        lines.push(output::info_line(body.as_str()));
        proof {
            assert(lines.deep_view() =~= dv0.push(list_command_spec(cfg@.commands[i as int])));
            assert(cfg@.commands.take(i + 1).map_values(|c: Seq<char>| list_command_spec(c)) =~= cfg@.commands.take(
                i as int,
            ).map_values(|c: Seq<char>| list_command_spec(c)).push(
                list_command_spec(cfg@.commands[i as int]),
            ));
        }
        i += 1;
    }
    proof {
        assert(cfg@.commands.take(cfg.commands@.len() as int) =~= cfg@.commands);
        assert(lines.deep_view() =~= rule_lines_spec(cfg@));
    }
    lines
}

/// Produces the lines printed when the loaded rules are listed: for each rule
/// its heading, then one `$`-prefixed line per command.
pub fn list(rules: &Vec<Config>) -> (lines: Vec<String>)
    ensures
        lines.deep_view() == list_lines_spec(rules.deep_view()),
{
    let mut lines: Vec<String> = Vec::new();
    let mut i: usize = 0;
    while i < rules.len()
        invariant
            i <= rules@.len(),
            rules.deep_view().len() == rules@.len(),
            lines.deep_view() =~= list_lines_spec(rules.deep_view().take(i as int)),
        decreases rules@.len() - i,
    {
        let mut extra = rule_lines(&rules[i]);
        let ghost dv0 = lines.deep_view();
        let mut j: usize = 0;
        while j < extra.len()
            invariant
                j <= extra@.len(),
                extra.deep_view() == rule_lines_spec(rules@[i as int]@),
                i < rules@.len(),
                lines.deep_view() =~= dv0 + extra.deep_view().take(j as int),
            decreases extra@.len() - j,
        {
            let ghost dv1 = lines.deep_view();
            let line = extra[j].clone();
            lines.push(line);
            proof {
                assert(lines.deep_view() =~= dv1.push(extra.deep_view()[j as int]));
                assert(lines.deep_view() =~= dv0 + extra.deep_view().take(j + 1));
            }
            j += 1;
        }
        proof {
            let dvr = rules.deep_view();
            assert(extra.deep_view().take(extra@.len() as int) =~= extra.deep_view());
            assert(dvr.take(i + 1).map_values(|c: ConfigV| rule_lines_spec(c)) =~= dvr.take(
                i as int,
            ).map_values(|c: ConfigV| rule_lines_spec(c)).push(rule_lines_spec(dvr[i as int])));
            dvr.take(i as int).map_values(|c: ConfigV| rule_lines_spec(c)).lemma_flatten_push(
                rule_lines_spec(dvr[i as int]),
            );
            assert(rules@[i as int]@ == dvr[i as int]);
            assert(lines.deep_view() =~= list_lines_spec(dvr.take(i + 1)));
        }
        i += 1;
    }
    proof {
        assert(rules.deep_view().take(rules@.len() as int) =~= rules.deep_view());
    }
    lines
}

} // verus!
