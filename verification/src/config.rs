//! The configuration model: jump aliases and saved commands, cleanup scan
//! settings, and the dotfiles symlink map, with their defaults.
use crate::clean::artifacts::{answered, on_disk};
use crate::paths::{join_path, path_join};
use crate::table::StrMap;
use crate::text::{concat2, owned, str_equal, strings_view};
use vstd::prelude::*;

verus! {

/// Default age threshold in days for log and cache pruning.
pub const DEFAULT_AGE_THRESHOLD_DAYS: u64 = 7;

/// The whole configuration.
#[derive(Debug)]
pub struct Config {
    /// Jump aliases and per-project commands.
    pub jump: JumpConfig,
    /// Cleanup scan settings.
    pub clean: CleanConfig,
    /// Dotfiles drift settings.
    pub drift: DriftConfig,
}

/// Project jump aliases and their registered commands.
#[derive(Debug)]
pub struct JumpConfig {
    /// Alias -> project root directory.
    pub aliases: StrMap<String>,
    /// Alias -> (command name -> shell command).
    pub commands: StrMap<StrMap<String>>,
}

/// Cleanup scan roots, exclusions and retention.
#[derive(Debug)]
pub struct CleanConfig {
    /// Scan roots evaluated on hygiene passes.
    pub scan_roots: Vec<String>,
    /// Age in days past which logs and caches count as stale.
    pub age_threshold_days: u64,
    /// Names excluded from cleanup scans.
    pub exclude: Vec<String>,
    /// Additional scan roots (such as dotfiles backup directories).
    pub extra_scan_roots: Vec<String>,
}

/// Dotfiles drift settings.
#[derive(Debug)]
pub struct DriftConfig {
    /// The dotfiles repository.
    pub dotfiles_dir: String,
    /// Source (relative to `dotfiles_dir`) -> target (relative to home).
    pub links: StrMap<String>,
}

/// The default scan roots.
pub open spec fn spec_default_scan_roots() -> Seq<Seq<char>> {
    seq!["/var/cache/pacman/pkg"@, "/tmp"@, "/var/tmp"@]
}

/// The default exclusions.
pub open spec fn spec_default_exclude() -> Seq<Seq<char>> {
    seq![".git"@, ".cargo/registry"@, ".rustup"@]
}

/// The default symlink map (source -> target).
pub open spec fn spec_default_symlinks() -> Map<Seq<char>, Seq<char>> {
    Map::empty().insert("bash/.bashrc"@, ".bashrc"@).insert("zsh/.zshrc"@, ".zshrc"@).insert(
        "fish/config.fish"@,
        ".config/fish/config.fish"@,
    ).insert("fish/functions/extract.fish"@, ".config/fish/functions/extract.fish"@).insert(
        "git/.gitconfig"@,
        ".gitconfig"@,
    ).insert("git/.gitignore_global"@, ".gitignore_global"@).insert(
        "ssh/config"@,
        ".ssh/config"@,
    ).insert("ripgrep/ripgreprc"@, ".config/ripgrep/ripgreprc"@)
}

/// The dotfiles directory chosen for a home directory: `<home>/dotfiles`
/// when that exists, else `<home>/.dotfiles`; `dotfiles` without a home.
pub open spec fn spec_dotfiles_dir(home: Option<Seq<char>>, standard_exists: bool) -> Seq<char> {
    match home {
        Some(h) => if standard_exists {
            path_join(h, "dotfiles"@)
        } else {
            path_join(h, ".dotfiles"@)
        },
        None => "dotfiles"@,
    }
}

/// Returns the default scan roots.
pub fn default_scan_roots() -> (r: Vec<String>)
    ensures
        strings_view(r@) == spec_default_scan_roots(),
{
    let r = vec![owned("/var/cache/pacman/pkg"), owned("/tmp"), owned("/var/tmp")];
    assert(strings_view(r@) =~= spec_default_scan_roots());
    r
}

/// Returns the default age threshold of seven days.
pub fn default_age_threshold_days() -> (r: u64)
    ensures
        r == 7,
{
    DEFAULT_AGE_THRESHOLD_DAYS
}

/// Returns the default exclusion list.
pub fn default_exclude() -> (r: Vec<String>)
    ensures
        strings_view(r@) == spec_default_exclude(),
{
    let r = vec![owned(".git"), owned(".cargo/registry"), owned(".rustup")];
    assert(strings_view(r@) =~= spec_default_exclude());
    r
}

/// Returns the baseline symlink map.
pub fn default_symlinks() -> (r: StrMap<String>)
    ensures
        r@ == spec_default_symlinks(),
{
    let mut m: StrMap<String> = StrMap::new();
    m.insert(owned("bash/.bashrc"), owned(".bashrc"));
    m.insert(owned("zsh/.zshrc"), owned(".zshrc"));
    m.insert(owned("fish/config.fish"), owned(".config/fish/config.fish"));
    m.insert(owned("fish/functions/extract.fish"), owned(".config/fish/functions/extract.fish"));
    m.insert(owned("git/.gitconfig"), owned(".gitconfig"));
    m.insert(owned("git/.gitignore_global"), owned(".gitignore_global"));
    m.insert(owned("ssh/config"), owned(".ssh/config"));
    m.insert(owned("ripgrep/ripgreprc"), owned(".config/ripgrep/ripgreprc"));
    assert(m@ =~= spec_default_symlinks());
    m
}

/// The dotfiles directory for `home`, given whether `<home>/dotfiles` exists.
pub fn dotfiles_dir_for(home: Option<&str>, standard_exists: bool) -> (r: String)
    ensures
        r@ == spec_dotfiles_dir(
            match home {
                Some(h) => Some(h@),
                None => None,
            },
            standard_exists,
        ),
{
    match home {
        Some(h) => if standard_exists {
            join_path(h, "dotfiles")
        } else {
            join_path(h, ".dotfiles")
        },
        None => owned("dotfiles"),
    }
}

/// The default dotfiles directory, asking `probe` whether `<home>/dotfiles`
/// exists: that directory when the answer is yes, `<home>/.dotfiles` when it
/// is no; `dotfiles` when no home is known, without asking.
pub fn default_dotfiles_dir_with<F: Fn(&str) -> bool>(home: Option<&str>, probe: &F) -> (r: String)
    requires
        forall|s: &str| call_requires(*probe, (s,)),
    ensures
        match home {
            Some(h) => exists|b: bool|
                #[trigger] answered(*probe, path_join(h@, "dotfiles"@), b) && r@ == (if b {
                    path_join(h@, "dotfiles"@)
                } else {
                    path_join(h@, ".dotfiles"@)
                }),
            None => r@ == "dotfiles"@,
        },
{
    match home {
        Some(h) => {
            let standard = join_path(h, "dotfiles");
            let ss = standard.as_str();
            let exists = probe(ss);
            assert(call_ensures(*probe, (ss,), exists));
            assert(answered(*probe, path_join(h@, "dotfiles"@), exists));
            dotfiles_dir_for(home, exists)
        },
        None => dotfiles_dir_for(None, false),
    }
}

/// Returns the default dotfiles directory: `<home>/dotfiles` if it exists on
/// disk, else `<home>/.dotfiles`; `dotfiles` when no home is known.
pub fn default_dotfiles_dir(home: Option<&str>) -> (r: String)
    ensures
        match home {
            Some(h) => r@ == path_join(h@, "dotfiles"@) || r@ == path_join(h@, ".dotfiles"@),
            None => r@ == "dotfiles"@,
        },
        match home {
            Some(h) => exists|b: bool|
                #[trigger] answered(on_disk, path_join(h@, "dotfiles"@), b) && r@ == (if b {
                    path_join(h@, "dotfiles"@)
                } else {
                    path_join(h@, ".dotfiles"@)
                }),
            None => true,
        },
{
    default_dotfiles_dir_with(home, &on_disk)
}

impl Default for CleanConfig {
    fn default() -> (r: Self)
        ensures
            strings_view(r.scan_roots@) == spec_default_scan_roots(),
            r.age_threshold_days == 7,
            strings_view(r.exclude@) == spec_default_exclude(),
            r.extra_scan_roots@.len() == 0,
    {
        CleanConfig {
            scan_roots: default_scan_roots(),
            age_threshold_days: default_age_threshold_days(),
            exclude: default_exclude(),
            extra_scan_roots: Vec::new(),
        }
    }
}

impl JumpConfig {
    /// No aliases and no commands.
    pub fn new() -> (r: Self)
        ensures
            r.aliases@ == Map::<Seq<char>, Seq<char>>::empty(),
            r.commands@ == Map::<Seq<char>, Map<Seq<char>, Seq<char>>>::empty(),
    {
        let r = JumpConfig { aliases: StrMap::new(), commands: StrMap::new() };
        assert(r.aliases@ =~= Map::<Seq<char>, Seq<char>>::empty());
        assert(r.commands@ =~= Map::<Seq<char>, Map<Seq<char>, Seq<char>>>::empty());
        r
    }
}

impl DriftConfig {
    /// The default drift settings for a home directory.
    pub fn for_home(home: Option<&str>) -> (r: Self)
        ensures
            match home {
                Some(h) => r.dotfiles_dir@ == path_join(h@, "dotfiles"@) || r.dotfiles_dir@
                    == path_join(h@, ".dotfiles"@),
                None => r.dotfiles_dir@ == "dotfiles"@,
            },
            r.links@ == spec_default_symlinks(),
    {
        DriftConfig { dotfiles_dir: default_dotfiles_dir(home), links: default_symlinks() }
    }
}

impl Config {
    /// The default configuration for a home directory: no aliases or
    /// commands, default cleanup settings, default drift settings.
    pub fn for_home(home: Option<&str>) -> (r: Self)
        ensures
            r.jump.aliases@ == Map::<Seq<char>, Seq<char>>::empty(),
            r.jump.commands@ == Map::<Seq<char>, Map<Seq<char>, Seq<char>>>::empty(),
            strings_view(r.clean.scan_roots@) == spec_default_scan_roots(),
            r.clean.age_threshold_days == 7,
            strings_view(r.clean.exclude@) == spec_default_exclude(),
            r.clean.extra_scan_roots@.len() == 0,
            r.drift.links@ == spec_default_symlinks(),
    {
        Config {
            jump: JumpConfig::new(),
            clean: CleanConfig::default(),
            drift: DriftConfig::for_home(home),
        }
    }
}

/// Whether a key of the `[jump]` table holds the commands rather than an
/// alias: the table keeps aliases and the `commands` table side by side.
pub fn is_commands_key(key: &str) -> (b: bool)
    ensures
        b == (key@ == "commands"@),
{
    str_equal(key, "commands")
}

/// The home directory of the user who invoked `sudo`: `/home/<user>` for a
/// user other than root.
pub open spec fn sudo_home(sudo_user: Option<Seq<char>>) -> Option<Seq<char>> {
    match sudo_user {
        Some(u) => if u.len() > 0 && u != "root"@ {
            Some("/home/"@ + u)
        } else {
            None
        },
        None => None,
    }
}

/// The home directory that `sudo` hides, if any: `/home/<SUDO_USER>` when
/// `SUDO_USER` names a user other than root.
pub fn sudo_home_candidate(sudo_user: Option<&str>) -> (r: Option<String>)
    ensures
        match r {
            Some(h) => sudo_home(
                match sudo_user {
                    Some(u) => Some(u@),
                    None => None,
                },
            ) == Some(h@),
            None => sudo_home(
                match sudo_user {
                    Some(u) => Some(u@),
                    None => None,
                },
            ) is None,
        },
{
    match sudo_user {
        Some(u) => {
            if !u.is_empty() && !str_equal(u, "root") {
                Some(concat2("/home/", u))
            } else {
                None
            }
        },
        None => None,
    }
}

/// The effective home directory: the invoking user's home under `sudo` when
/// it exists on disk, else `HOME`.
pub fn choose_home_dir(sudo_candidate: Option<String>, candidate_exists: bool, home: Option<String>) -> (r: Option<String>)
    ensures
        (sudo_candidate is Some && candidate_exists) ==> r == sudo_candidate,
        !(sudo_candidate is Some && candidate_exists) ==> r == home,
{
    match sudo_candidate {
        Some(c) => if candidate_exists {
            Some(c)
        } else {
            home
        },
        None => home,
    }
}

/// Where the configuration file lives: the `VOIDCTL_CONFIG` override, else
/// `<home>/.config/voidctl/voidctl.toml`; none without either.
pub open spec fn config_path(override_path: Option<Seq<char>>, home: Option<Seq<char>>) -> Option<Seq<char>> {
    match override_path {
        Some(p) => Some(p),
        None => match home {
            Some(h) => Some(path_join(path_join(path_join(h, ".config"@), "voidctl"@), "voidctl.toml"@)),
            None => None,
        },
    }
}

/// Resolves the path of the configuration file.
pub fn config_path_for(override_path: Option<&str>, home: Option<&str>) -> (r: Option<String>)
    ensures
        match r {
            Some(p) => config_path(
                match override_path {
                    Some(o) => Some(o@),
                    None => None,
                },
                match home {
                    Some(h) => Some(h@),
                    None => None,
                },
            ) == Some(p@),
            None => override_path is None && home is None,
        },
{
    match override_path {
        Some(p) => Some(owned(p)),
        None => match home {
            Some(h) => {
                let a = join_path(h, ".config");
                let b = join_path(a.as_str(), "voidctl");
                Some(join_path(b.as_str(), "voidctl.toml"))
            },
            None => None,
        },
    }
}

} // verus!
