//! Saved per-project commands: registration, listing, and the choice of the
//! command to run for an alias.
use crate::config::Config;
use crate::paths::path_exists;
use crate::table::{sorted_listing, StrMap};
use crate::text::{append_str, concat2, concat3, owned};
use vstd::prelude::*;

verus! {

/// Why a command could not be resolved or run.
#[derive(Debug, Clone, PartialEq, Eq)]
pub enum RunnerError {
    /// No alias of this name is registered.
    AliasNotFound { alias: String },
    /// The alias points at a directory that does not exist.
    DirectoryNotFound { path: String },
    /// The alias has no commands.
    NoCommandsFound { alias: String },
    /// No command of that name (or no default) exists; `available` lists the
    /// command names joined by ", ".
    CommandNotFound { alias: String, cmd_name: String, available: String },
    /// The shell could not be started or waited for.
    SpawnFailed { command: String, reason: String },
    /// The command ended by a signal.
    TerminatedBySignal,
}

/// The message of a runner error.
pub open spec fn runner_error_text(e: RunnerError) -> Seq<char> {
    match e {
        RunnerError::AliasNotFound { alias } => "Unknown jump alias: '"@ + alias@ + "'"@,
        RunnerError::DirectoryNotFound { path } => "Target directory '"@ + path@
            + "' does not exist"@,
        RunnerError::NoCommandsFound { alias } => "No commands configured for alias '"@ + alias@
            + "'"@,
        RunnerError::CommandNotFound { alias, cmd_name, available } => "Command '"@ + cmd_name@
            + "' not found for alias '"@ + alias@ + "'. Available: "@ + available@,
        RunnerError::SpawnFailed { command, reason } => "Failed to execute command '"@ + command@
            + "': "@ + reason@,
        RunnerError::TerminatedBySignal => "Command terminated by signal"@,
    }
}

impl RunnerError {
    /// The message of the error.
    pub fn message(&self) -> (r: String)
        ensures
            r@ == runner_error_text(*self),
    {
        match self {
            RunnerError::AliasNotFound { alias } => concat3("Unknown jump alias: '", alias.as_str(), "'"),
            RunnerError::DirectoryNotFound { path } => concat3(
                "Target directory '",
                path.as_str(),
                "' does not exist",
            ),
            RunnerError::NoCommandsFound { alias } => concat3(
                "No commands configured for alias '",
                alias.as_str(),
                "'",
            ),
            RunnerError::CommandNotFound { alias, cmd_name, available } => {
                let mut out = owned("Command '");
                append_str(&mut out, cmd_name.as_str());
                append_str(&mut out, "' not found for alias '");
                append_str(&mut out, alias.as_str());
                append_str(&mut out, "'. Available: ");
                append_str(&mut out, available.as_str());
                out
            },
            RunnerError::SpawnFailed { command, reason } => {
                let mut out = owned("Failed to execute command '");
                append_str(&mut out, command.as_str());
                append_str(&mut out, "': ");
                append_str(&mut out, reason.as_str());
                out
            },
            RunnerError::TerminatedBySignal => owned("Command terminated by signal"),
        }
    }
}

/// How running a shell command went.
#[derive(Debug)]
pub enum CommandRun {
    /// The shell could not be started or waited for, for this reason.
    Failed(String),
    /// The shell ended with this exit code, or by a signal (none).
    Exited(Option<i32>),
}

/// The exit code of a command from how running it went: the shell's exit
/// code, `SpawnFailed` when it could not run, `TerminatedBySignal` when a
/// signal ended it.
pub fn command_exit(command: &str, run: CommandRun) -> (r: Result<i32, RunnerError>)
    ensures
        match run {
            CommandRun::Failed(reason) => r matches Err(RunnerError::SpawnFailed { command: c, reason: m })
                && c@ == command@ && m@ == reason@,
            CommandRun::Exited(Some(code)) => r == Ok::<i32, RunnerError>(code),
            CommandRun::Exited(None) => r == Err::<i32, RunnerError>(RunnerError::TerminatedBySignal),
        },
{
    match run {
        CommandRun::Failed(reason) => Err(RunnerError::SpawnFailed { command: owned(command), reason }),
        CommandRun::Exited(Some(code)) => Ok(code),
        CommandRun::Exited(None) => Err(RunnerError::TerminatedBySignal),
    }
}

/// The strings of `ks` joined with `sep` between neighbours.
pub open spec fn join_with(ks: Seq<Seq<char>>, sep: Seq<char>) -> Seq<char>
    decreases ks.len(),
{
    if ks.len() == 0 {
        Seq::empty()
    } else if ks.len() == 1 {
        ks[0]
    } else {
        join_with(ks.drop_last(), sep) + sep + ks.last()
    }
}

/// The name used when no command was asked for and none could be chosen.
pub open spec fn unspecified_name() -> Seq<char> {
    "<unspecified>"@
}

/// The command chosen from `cmds` for a request: the named one; else the
/// only one; else `default`; else `run`. `None` when there is no choice.
pub open spec fn spec_pick(cmds: Map<Seq<char>, Seq<char>>, name: Option<Seq<char>>) -> Option<Seq<char>> {
    match name {
        Some(n) => if cmds.contains_key(n) {
            Some(cmds[n])
        } else {
            None
        },
        None => if cmds.dom().len() == 1 {
            Some(cmds.values().choose())
        } else if cmds.contains_key("default"@) {
            Some(cmds["default"@])
        } else if cmds.contains_key("run"@) {
            Some(cmds["run"@])
        } else {
            None
        },
    }
}

/// Registers or updates a named command under a project alias; nothing else
/// in the configuration changes.
pub fn add_command(config: &mut Config, alias: &str, cmd_name: &str, shell_cmd: &str)
    ensures
        final(config).jump.commands@ == old(config).jump.commands@.insert(
            alias@,
            if old(config).jump.commands@.contains_key(alias@) {
                old(config).jump.commands@[alias@]
            } else {
                Map::empty()
            }.insert(cmd_name@, shell_cmd@),
        ),
        final(config).jump.aliases == old(config).jump.aliases,
        final(config).clean == old(config).clean,
        final(config).drift == old(config).drift,
{
    let ghost old_cmds = config.jump.commands@;
    match config.jump.commands.replace(alias, StrMap::new()) {
        Some(mut inner) => {
            let ghost before = inner@;
            inner.insert(owned(cmd_name), owned(shell_cmd));
            assert(inner@ =~= before.insert(cmd_name@, shell_cmd@));
            let _ = config.jump.commands.replace(alias, inner);
        },
        None => {
            let mut inner: StrMap<String> = StrMap::new();
            inner.insert(owned(cmd_name), owned(shell_cmd));
            assert(inner@ =~= Map::<Seq<char>, Seq<char>>::empty().insert(cmd_name@, shell_cmd@));
            config.jump.commands.insert(owned(alias), inner);
        },
    }
    assert(config.jump.commands@ =~= old_cmds.insert(
        alias@,
        if old_cmds.contains_key(alias@) {
            old_cmds[alias@]
        } else {
            Map::empty()
        }.insert(cmd_name@, shell_cmd@),
    ));
}

/// The commands of an alias, sorted by name; `None` when the alias has none.
pub fn list_commands<'a>(config: &'a Config, alias: &str) -> (r: Option<Vec<(&'a str, &'a str)>>)
    ensures
        r is None <==> !config.jump.commands@.contains_key(alias@),
        r matches Some(list) ==> sorted_listing(list@, config.jump.commands@[alias@]),
{
    match config.jump.commands.get(alias) {
        Some(cmds) => {
            assert(cmds@ == config.jump.commands@[alias@]);
            Some(cmds.sorted_pairs())
        },
        None => {
            assert(!config.jump.commands.as_map().dom().contains(alias@));
            None
        },
    }
}

/// The names of `cmds` in the map's own order, joined by ", ".
pub fn available_names(cmds: &StrMap<String>) -> (r: String)
    ensures
        r@ == join_with(cmds.key_order(), ", "@),
{
    let n = cmds.len();
    let mut out = String::new();
    let mut i: usize = 0;
    while i < n
        invariant
            i <= n,
            n == cmds.key_order().len(),
            out@ == join_with(cmds.key_order().take(i as int), ", "@),
        decreases n - i,
    {
        let ghost ks = cmds.key_order();
        assert(ks.take(i + 1).drop_last() =~= ks.take(i as int));
        if i == 0 {
            assert(ks.take(1) =~= seq![ks[0]]);
            out = owned(cmds.key_at(i).as_str());
        } else {
            out = concat3(out.as_str(), ", ", cmds.key_at(i).as_str());
        }
        i = i + 1;
    }
    assert(cmds.key_order().take(n as int) =~= cmds.key_order());
    out
}

/// Selects the command to run: the named one; without a name, the only
/// command, else `default`, else `run`. Otherwise `CommandNotFound`, naming
/// the request (or `<unspecified>`) and the available commands.
pub fn pick_command<'a>(cmds: &'a StrMap<String>, alias: &str, cmd_name: Option<&str>) -> (r: Result<
    &'a String,
    RunnerError,
>)
    ensures
        match spec_pick(
            cmds@,
            match cmd_name {
                Some(n) => Some(n@),
                None => None,
            },
        ) {
            Some(c) => r matches Ok(s) && s@ == c,
            None => r matches Err(RunnerError::CommandNotFound { alias: a, cmd_name: n, available })
                && a@ == alias@ && n@ == (match cmd_name {
                Some(m) => m@,
                None => unspecified_name(),
            }) && available@ == join_with(cmds.key_order(), ", "@),
        },
{
    match cmd_name {
        Some(name) => match cmds.get(name) {
            Some(c) => Ok(c),
            None => Err(
                RunnerError::CommandNotFound {
                    alias: owned(alias),
                    cmd_name: owned(name),
                    available: available_names(cmds),
                },
            ),
        },
        None => {
            let count = cmds.len();
            proof {
                cmds.lemma_dom_len();
                assert(cmds@.dom() =~= cmds.as_map().dom());
            }
            if count == 1 {
                let only = cmds.value_at(0);
                proof {
                    cmds.lemma_entry(0);
                    let k = cmds.key_order()[0];
                    assert(cmds@.contains_key(k));
                    assert forall|key: Seq<char>| #[trigger]
                        cmds@.contains_key(key) implies key == k by {
                        let t = choose|t: int|
                            0 <= t < cmds.key_order().len() && cmds.key_order()[t] == key;
                        assert(t == 0);
                    }
                    assert(cmds@.values() =~= set![only@]) by {
                        assert forall|v: Seq<char>| #[trigger]
                            cmds@.values().contains(v) implies v == only@ by {
                            let key = choose|key: Seq<char>|
                                cmds@.contains_key(key) && cmds@[key] == v;
                            assert(key == k);
                        }
                        assert(cmds@.values().contains(only@)) by {
                            assert(cmds@.contains_key(k) && cmds@[k] == only@);
                        }
                    }
                    assert(set![only@].choose() == only@) by {
                        let c = set![only@].choose();
                        assert(set![only@].contains(c));
                    }
                }
                return Ok(only);
            }
            match cmds.get("default") {
                Some(c) => Ok(c),
                None => match cmds.get("run") {
                    Some(c) => Ok(c),
                    None => Err(
                        RunnerError::CommandNotFound {
                            alias: owned(alias),
                            cmd_name: owned("<unspecified>"),
                            available: available_names(cmds),
                        },
                    ),
                },
            }
        },
    }
}

/// What resolving a command for `alias` yields, given whether the alias's
/// directory exists on disk.
pub fn command_outcome(config: &Config, alias: &str, cmd_name: Option<&str>, dir_exists: bool) -> (r:
    Result<(String, String), RunnerError>)
    ensures
        !config.jump.aliases@.contains_key(alias@) ==> (r matches Err(
            RunnerError::AliasNotFound { alias: a },
        ) && a@ == alias@),
        config.jump.aliases@.contains_key(alias@) && !dir_exists ==> (r matches Err(
            RunnerError::DirectoryNotFound { path },
        ) && path@ == config.jump.aliases@[alias@]),
        config.jump.aliases@.contains_key(alias@) && dir_exists
            && !config.jump.commands@.contains_key(alias@) ==> (r matches Err(
            RunnerError::NoCommandsFound { alias: a },
        ) && a@ == alias@),
        config.jump.aliases@.contains_key(alias@) && dir_exists
            && config.jump.commands@.contains_key(alias@) ==> ({
            let cmds = config.jump.commands@[alias@];
            match spec_pick(
                cmds,
                match cmd_name {
                    Some(n) => Some(n@),
                    None => None,
                },
            ) {
                Some(c) => r matches Ok(pair) && pair.0@ == config.jump.aliases@[alias@]
                    && pair.1@ == c,
                None => r matches Err(
                    RunnerError::CommandNotFound { alias: a, cmd_name: n, available },
                ) && a@ == alias@ && n@ == (match cmd_name {
                    Some(m) => m@,
                    None => unspecified_name(),
                }) && available@ == join_with(
                    config.jump.commands.as_map()[alias@].key_order(),
                    ", "@,
                ),
            }
        }),
{
    let target_dir = match config.jump.aliases.get(alias) {
        Some(p) => p,
        None => {
            return Err(RunnerError::AliasNotFound { alias: owned(alias) });
        },
    };
    if !dir_exists {
        return Err(RunnerError::DirectoryNotFound { path: target_dir.clone() });
    }
    let cmds = match config.jump.commands.get(alias) {
        Some(c) => c,
        None => {
            return Err(RunnerError::NoCommandsFound { alias: owned(alias) });
        },
    };
    let command = pick_command(cmds, alias, cmd_name)?;
    Ok((target_dir.clone(), command.clone()))
}

/// Resolves the project directory and the command string for an alias,
/// checking on disk that the directory exists.
pub fn resolve_command(config: &Config, alias: &str, cmd_name: Option<&str>) -> (r: Result<
    (String, String),
    RunnerError,
>)
    ensures
        !config.jump.aliases@.contains_key(alias@) ==> (r matches Err(
            RunnerError::AliasNotFound { alias: a },
        ) && a@ == alias@),
        config.jump.aliases@.contains_key(alias@) ==> !(r is Err && r->Err_0 is AliasNotFound),
        r matches Err(RunnerError::DirectoryNotFound { path }) ==> path@
            == config.jump.aliases@[alias@],
        r matches Err(RunnerError::NoCommandsFound { alias: a }) ==> a@ == alias@
            && !config.jump.commands@.contains_key(alias@),
        r matches Ok(pair) ==> config.jump.aliases@.contains_key(alias@) && pair.0@
            == config.jump.aliases@[alias@] && config.jump.commands@.contains_key(alias@) && spec_pick(
            config.jump.commands@[alias@],
            match cmd_name {
                Some(n) => Some(n@),
                None => None,
            },
        ) == Some(pair.1@),
        r is Err && r->Err_0 is CommandNotFound ==> config.jump.commands@.contains_key(alias@)
            && spec_pick(
            config.jump.commands@[alias@],
            match cmd_name {
                Some(n) => Some(n@),
                None => None,
            },
        ) is None,
        !(r is Err && (r->Err_0 is SpawnFailed || r->Err_0 is TerminatedBySignal)),
{
    let exists = match config.jump.aliases.get(alias) {
        Some(p) => path_exists(p.as_str()),
        None => false,
    };
    command_outcome(config, alias, cmd_name, exists)
}

/// A command registered under a name is the one picked by that name.
pub proof fn lemma_pick_after_add(cmds: Map<Seq<char>, Seq<char>>, name: Seq<char>, shell_cmd: Seq<char>)
    ensures
        spec_pick(cmds.insert(name, shell_cmd), Some(name)) == Some(shell_cmd),
{
}

/// The only command of an alias is picked when no name is given.
pub proof fn lemma_sole_command_picked(name: Seq<char>, shell_cmd: Seq<char>)
    ensures
        spec_pick(Map::<Seq<char>, Seq<char>>::empty().insert(name, shell_cmd), None) == Some(
            shell_cmd,
        ),
{
    let m = Map::<Seq<char>, Seq<char>>::empty().insert(name, shell_cmd);
    assert(m.values() =~= set![shell_cmd]) by {
        assert forall|v: Seq<char>| #[trigger] m.values().contains(v) implies v == shell_cmd by {
            let k = choose|k: Seq<char>| m.contains_key(k) && m[k] == v;
        }
        assert(m.contains_key(name) && m[name] == shell_cmd);
    }
    assert(set![shell_cmd].contains(shell_cmd));
    let c = set![shell_cmd].choose();
    assert(set![shell_cmd].contains(c));
}

/// After a command is registered, the alias's commands are those it had
/// with this one added or replaced, and the other aliases' commands are
/// unchanged.
pub proof fn lemma_add_command_scope(
    before: Map<Seq<char>, Map<Seq<char>, Seq<char>>>,
    after: Map<Seq<char>, Map<Seq<char>, Seq<char>>>,
    alias: Seq<char>,
    name: Seq<char>,
    shell_cmd: Seq<char>,
)
    requires
        after == before.insert(
            alias,
            if before.contains_key(alias) {
                before[alias]
            } else {
                Map::empty()
            }.insert(name, shell_cmd),
        ),
    ensures
        after.contains_key(alias),
        after[alias].contains_key(name) && after[alias][name] == shell_cmd,
        forall|n: Seq<char>|
            n != name && before.contains_key(alias) && #[trigger] before[alias].contains_key(n)
                ==> after[alias].contains_key(n) && after[alias][n] == before[alias][n],
        forall|a: Seq<char>| a != alias ==> #[trigger] after.contains_key(a) == before.contains_key(a),
        forall|a: Seq<char>| a != alias && before.contains_key(a) ==> #[trigger] after[a] == before[a],
{
}

} // verus!
