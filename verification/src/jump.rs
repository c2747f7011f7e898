//! Jump aliases: registration, lookup, listing, resolution against the disk,
//! and the shell wrapper scripts that turn a printed path into a `cd`.
use crate::config::Config;
use crate::table::sorted_listing;
use crate::paths::path_exists;
use crate::text::{
    all_ascii, append_str, ascii_lower, owned, str_equal, to_lowercase_string, unicode_lowercase,
};
use vstd::prelude::*;

verus! {

/// Why a jump request failed.
#[derive(Debug, Clone, PartialEq, Eq)]
pub enum JumpError {
    /// No alias of this name is registered.
    AliasNotFound { alias: String },
    /// The alias points at a path that does not exist.
    PathNotFound { path: String },
    /// No wrapper script exists for this shell.
    UnsupportedShell { shell: String },
}

/// The message of a jump error.
pub open spec fn jump_error_text(e: JumpError) -> Seq<char> {
    match e {
        JumpError::AliasNotFound { alias } => "Unknown jump alias: '"@ + alias@ + "'"@,
        JumpError::PathNotFound { path } => "Target path '"@ + path@ + "' does not exist"@,
        JumpError::UnsupportedShell { shell } => "Unsupported shell: '"@ + shell@
            + "'. Supported shells: zsh, bash, fish"@,
    }
}

impl JumpError {
    /// The message of the error.
    pub fn message(&self) -> (r: String)
        ensures
            r@ == jump_error_text(*self),
    {
        let (head, middle, tail) = match self {
            JumpError::AliasNotFound { alias } => ("Unknown jump alias: '", alias.as_str(), "'"),
            JumpError::PathNotFound { path } => ("Target path '", path.as_str(), "' does not exist"),
            JumpError::UnsupportedShell { shell } => (
                "Unsupported shell: '",
                shell.as_str(),
                "'. Supported shells: zsh, bash, fish",
            ),
        };
        let mut out = owned(head);
        append_str(&mut out, middle);
        append_str(&mut out, tail);
        out
    }
}

/// The wrapper script for zsh.
pub const ZSH_INIT_SCRIPT: &'static str = "# voidctl jump wrapper for zsh
j() {
    if [ \"$#\" -eq 0 ]; then
        voidctl jump --list
        return $?
    fi
    local target
    target=\"$(voidctl jump \"$@\")\" && cd \"$target\"
}

_j() {
    local -a aliases
    aliases=(${(f)\"$(voidctl jump --list 2>/dev/null | awk '{print $1}')\"})
    _describe 'jump alias' aliases
}
compdef _j j 2>/dev/null || true
";

/// The wrapper script for bash.
pub const BASH_INIT_SCRIPT: &'static str = "# voidctl jump wrapper for bash
j() {
    if [ \"$#\" -eq 0 ]; then
        voidctl jump --list
        return $?
    fi
    local target
    target=\"$(voidctl jump \"$@\")\" && cd \"$target\"
}

_j() {
    local cur=\"${COMP_WORDS[COMP_CWORD]}\"
    local aliases
    aliases=\"$(voidctl jump --list 2>/dev/null | awk '{print $1}')\"
    COMPREPLY=( $(compgen -W \"${aliases}\" -- \"${cur}\") )
}
complete -F _j j
";

/// The wrapper script for fish.
pub const FISH_INIT_SCRIPT: &'static str = "# voidctl jump wrapper for fish
function j --description 'Jump to registered project alias using voidctl'
    if test (count $argv) -eq 0
        voidctl jump --list
        return $status
    end
    set -l target (voidctl jump $argv[1])
    if test $status -eq 0; and test -n \"$target\"
        cd $target
    end
end

complete -c j -f -a \"(voidctl jump --list 2>/dev/null | awk '{print \\$1}')\"
";

/// The script for a lower-cased shell name, if there is one.
pub open spec fn spec_init_script(lowered: Seq<char>) -> Option<Seq<char>> {
    if lowered == "zsh"@ {
        Some(ZSH_INIT_SCRIPT@)
    } else if lowered == "bash"@ {
        Some(BASH_INIT_SCRIPT@)
    } else if lowered == "fish"@ {
        Some(FISH_INIT_SCRIPT@)
    } else {
        None
    }
}

/// Resolves an alias to its target directory.
pub fn resolve_alias<'a>(config: &'a Config, alias: &str) -> (r: Option<&'a str>)
    ensures
        match r {
            Some(p) => config.jump.aliases@.contains_key(alias@) && p@
                == config.jump.aliases@[alias@],
            None => !config.jump.aliases@.contains_key(alias@),
        },
{
    match config.jump.aliases.get(alias) {
        Some(p) => Some(p.as_str()),
        None => None,
    }
}

/// Registers or updates a jump alias; nothing else in the configuration
/// changes.
pub fn add_alias(config: &mut Config, alias: String, path: String)
    ensures
        final(config).jump.aliases@ == old(config).jump.aliases@.insert(alias@, path@),
        final(config).jump.commands == old(config).jump.commands,
        final(config).clean == old(config).clean,
        final(config).drift == old(config).drift,
{
    let ghost a = alias@;
    let ghost p = path@;
    config.jump.aliases.insert(alias, path);
    assert(config.jump.aliases@ =~= old(config).jump.aliases@.insert(a, p));
}

/// All aliases with their paths, sorted by alias.
pub fn list_aliases(config: &Config) -> (r: Vec<(&str, &str)>)
    ensures
        r@.len() == config.jump.aliases.key_order().len(),
        sorted_listing(r@, config.jump.aliases@),
{
    config.jump.aliases.sorted_pairs()
}

/// What a jump to `alias` yields once the lookup has given `resolved` and the
/// disk has told whether that path exists.
pub fn jump_outcome(alias: &str, resolved: Option<&str>, target_exists: bool) -> (r: Result<
    String,
    JumpError,
>)
    ensures
        match resolved {
            None => r matches Err(JumpError::AliasNotFound { alias: a }) && a@ == alias@,
            Some(p) => if target_exists {
                r matches Ok(q) && q@ == p@
            } else {
                r matches Err(JumpError::PathNotFound { path }) && path@ == p@
            },
        },
{
    match resolved {
        None => Err(JumpError::AliasNotFound { alias: owned(alias) }),
        Some(p) => if target_exists {
            Ok(owned(p))
        } else {
            Err(JumpError::PathNotFound { path: owned(p) })
        },
    }
}

/// Resolves an alias and checks that its target exists on disk.
pub fn execute_jump(config: &Config, alias: &str) -> (r: Result<String, JumpError>)
    ensures
        match r {
            Ok(p) => config.jump.aliases@.contains_key(alias@) && p@
                == config.jump.aliases@[alias@],
            Err(JumpError::AliasNotFound { alias: a }) => !config.jump.aliases@.contains_key(
                alias@,
            ) && a@ == alias@,
            Err(JumpError::PathNotFound { path }) => config.jump.aliases@.contains_key(alias@)
                && path@ == config.jump.aliases@[alias@],
            Err(JumpError::UnsupportedShell { .. }) => false,
        },
{
    let resolved = resolve_alias(config, alias);
    let exists = match resolved {
        Some(p) => path_exists(p),
        None => false,
    };
    jump_outcome(alias, resolved, exists)
}

/// The wrapper script for a shell name that is already lower-cased.
pub fn init_script_for(lowered: &str, shell: &str) -> (r: Result<String, JumpError>)
    ensures
        match spec_init_script(lowered@) {
            Some(script) => r matches Ok(s) && s@ == script,
            None => r matches Err(JumpError::UnsupportedShell { shell: s }) && s@ == shell@,
        },
{
    if str_equal(lowered, "zsh") {
        Ok(owned(ZSH_INIT_SCRIPT))
    } else if str_equal(lowered, "bash") {
        Ok(owned(BASH_INIT_SCRIPT))
    } else if str_equal(lowered, "fish") {
        Ok(owned(FISH_INIT_SCRIPT))
    } else {
        Err(JumpError::UnsupportedShell { shell: owned(shell) })
    }
}

/// Generates the shell wrapper `j` and its alias completion for zsh, bash or
/// fish (the shell name is compared after lower-casing).
pub fn generate_init_script(shell: &str) -> (r: Result<String, JumpError>)
    ensures
        match spec_init_script(unicode_lowercase(shell@)) {
            Some(script) => r matches Ok(s) && s@ == script,
            None => r matches Err(JumpError::UnsupportedShell { shell: s }) && s@ == shell@,
        },
        all_ascii(shell@) ==> match spec_init_script(shell@.map_values(|c: char| ascii_lower(c))) {
            Some(script) => r matches Ok(s) && s@ == script,
            None => r matches Err(JumpError::UnsupportedShell { shell: s }) && s@ == shell@,
        },
{
    let lowered = to_lowercase_string(shell);
    init_script_for(lowered.as_str(), shell)
}

/// A registered alias resolves to the path it was registered with, and
/// registering it leaves every other alias as it was.
pub proof fn lemma_resolve_after_add(before: Config, after: Config, alias: Seq<char>, path: Seq<char>)
    requires
        after.jump.aliases@ == before.jump.aliases@.insert(alias, path),
    ensures
        after.jump.aliases@.contains_key(alias),
        after.jump.aliases@[alias] == path,
        forall|other: Seq<char>|
            other != alias ==> (#[trigger] after.jump.aliases@.contains_key(other)
                == before.jump.aliases@.contains_key(other) && (before.jump.aliases@.contains_key(
                other,
            ) ==> after.jump.aliases@[other] == before.jump.aliases@[other])),
{
}

/// Registering the same alias twice keeps only the second path.
pub proof fn lemma_add_twice_keeps_last(m: Map<Seq<char>, Seq<char>>, alias: Seq<char>, first: Seq<char>, second: Seq<char>)
    ensures
        m.insert(alias, first).insert(alias, second) == m.insert(alias, second),
{
    assert(m.insert(alias, first).insert(alias, second) =~= m.insert(alias, second));
}

} // verus!
