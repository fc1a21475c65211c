//! The configuration: its data model, how a document is decoded into it, and
//! how its entries are filtered for one shell and one platform and merged
//! into the alias map.
use crate::alias_map::{
    alias_entries, alias_map_insert, alias_map_shift_remove, lemma_without_key_lacks, merge_entries,
    new_alias_map, without_key, Entries,
};
use crate::render::Shell;
use indexmap::IndexMap;
use vstd::prelude::*;

pub mod decode;

use decode::{
    config_pairs, parse_pairs, parse_yaml_pairs, platform_from_os, platform_of_os, ConfigError,
    ConfigErrorV, Format,
};

verus! {

/// The platforms that aliases can be limited to.
#[derive(Clone, Copy, Debug, PartialEq, Eq, Structural)]
pub enum Platform {
    Windows,
    Linux,
    Macos,
}

/// A filter value: one item or a list of items.
#[derive(Debug)]
pub enum OneOrMany<T> {
    One(T),
    Many(Vec<T>),
}

/// The model of a `OneOrMany`.
pub enum OneOrManyV<T> {
    One(T),
    Many(Seq<T>),
}

impl<T> View for OneOrMany<T> {
    type V = OneOrManyV<T>;

    open spec fn view(&self) -> OneOrManyV<T> {
        match self {
            OneOrMany::One(t) => OneOrManyV::One(*t),
            OneOrMany::Many(v) => OneOrManyV::Many(v@),
        }
    }
}

/// Whether the filter value `m` names `x`.
pub open spec fn names<T>(m: OneOrManyV<T>, x: T) -> bool {
    match m {
        OneOrManyV::One(t) => t == x,
        OneOrManyV::Many(s) => s.contains(x),
    }
}

impl OneOrMany<Shell> {
    /// Whether this filter value names `value`.
    pub fn contains(&self, value: &Shell) -> (r: bool)
        ensures
            r == names(self@, *value),
    {
        match self {
            OneOrMany::One(item) => *item == *value,
            OneOrMany::Many(items) => {
                let mut i: usize = 0;
                while i < items.len()
                    invariant
                        i <= items.len(),
                        self@ == OneOrManyV::Many(items@),
                        forall|j: int| 0 <= j < i ==> items@[j] != *value,
                    decreases items.len() - i,
                {
                    if items[i] == *value {
                        assert(items@[i as int] == *value);
                        assert(items@.contains(*value));
                        return true;
                    }
                    i += 1;
                }
                false
            },
        }
    }
}

impl OneOrMany<Platform> {
    /// Whether this filter value names `value`.
    pub fn contains(&self, value: &Platform) -> (r: bool)
        ensures
            r == names(self@, *value),
    {
        match self {
            OneOrMany::One(item) => *item == *value,
            OneOrMany::Many(items) => {
                let mut i: usize = 0;
                while i < items.len()
                    invariant
                        i <= items.len(),
                        self@ == OneOrManyV::Many(items@),
                        forall|j: int| 0 <= j < i ==> items@[j] != *value,
                    decreases items.len() - i,
                {
                    if items[i] == *value {
                        assert(items@[i as int] == *value);
                        assert(items@.contains(*value));
                        return true;
                    }
                    i += 1;
                }
                false
            },
        }
    }
}

/// The model of an optional string.
pub open spec fn opt_chars(o: Option<String>) -> Option<Seq<char>> {
    match o {
        Some(s) => Some(s@),
        None => None,
    }
}

/// The model of an optional filter.
pub open spec fn opt_filter<T>(o: Option<OneOrMany<T>>) -> Option<OneOrManyV<T>> {
    match o {
        Some(m) => Some(m@),
        None => None,
    }
}

/// An alias with shell-specific commands and shell and platform filters.
#[derive(Debug)]
pub struct Conditional {
    /// The command, and the fallback for shells without a command of their own.
    pub cmd: String,
    pub cmd_bash: Option<String>,
    pub cmd_fish: Option<String>,
    pub cmd_pwsh: Option<String>,
    pub cmd_pwsh_conflict: Option<String>,
    pub cmd_zsh: Option<String>,
    /// The shells the alias is limited to.
    pub shell: Option<OneOrMany<Shell>>,
    /// The shells the alias is not generated for.
    pub shell_exclude: Option<OneOrMany<Shell>>,
    /// The platforms the alias is limited to.
    pub platform: Option<OneOrMany<Platform>>,
    /// The platforms the alias is not generated for.
    pub platform_exclude: Option<OneOrMany<Platform>>,
}

/// The model of a `Conditional`.
pub struct ConditionalV {
    pub cmd: Seq<char>,
    pub cmd_bash: Option<Seq<char>>,
    pub cmd_fish: Option<Seq<char>>,
    pub cmd_pwsh: Option<Seq<char>>,
    pub cmd_pwsh_conflict: Option<Seq<char>>,
    pub cmd_zsh: Option<Seq<char>>,
    pub shell: Option<OneOrManyV<Shell>>,
    pub shell_exclude: Option<OneOrManyV<Shell>>,
    pub platform: Option<OneOrManyV<Platform>>,
    pub platform_exclude: Option<OneOrManyV<Platform>>,
}

impl View for Conditional {
    type V = ConditionalV;

    open spec fn view(&self) -> ConditionalV {
        ConditionalV {
            cmd: self.cmd@,
            cmd_bash: opt_chars(self.cmd_bash),
            cmd_fish: opt_chars(self.cmd_fish),
            cmd_pwsh: opt_chars(self.cmd_pwsh),
            cmd_pwsh_conflict: opt_chars(self.cmd_pwsh_conflict),
            cmd_zsh: opt_chars(self.cmd_zsh),
            shell: opt_filter(self.shell),
            shell_exclude: opt_filter(self.shell_exclude),
            platform: opt_filter(self.platform),
            platform_exclude: opt_filter(self.platform_exclude),
        }
    }
}

/// The command `c` gives for `shell`: the shell's own command if set (for
/// PowerShell conflict mode, its own, else PowerShell's), else `cmd`.
pub open spec fn command_for(c: ConditionalV, shell: Shell) -> Seq<char> {
    let own = match shell {
        Shell::Bash => c.cmd_bash,
        Shell::Fish => c.cmd_fish,
        Shell::Pwsh => c.cmd_pwsh,
        Shell::PwshConflict => if c.cmd_pwsh_conflict is Some {
            c.cmd_pwsh_conflict
        } else {
            c.cmd_pwsh
        },
        Shell::Zsh => c.cmd_zsh,
    };
    match own {
        Some(s) => s,
        None => c.cmd,
    }
}

impl Conditional {
    /// The command for `shell`.
    pub fn command(self, shell: Shell) -> (r: String)
        ensures
            r@ == command_for(self@, shell),
    {
        let own = match shell {
            Shell::Bash => self.cmd_bash,
            Shell::Fish => self.cmd_fish,
            Shell::Pwsh => self.cmd_pwsh,
            Shell::PwshConflict => match self.cmd_pwsh_conflict {
                Some(c) => Some(c),
                None => self.cmd_pwsh,
            },
            Shell::Zsh => self.cmd_zsh,
        };
        match own {
            Some(s) => s,
            None => self.cmd,
        }
    }
}

/// A configured alias: a plain command, or a conditional one.
#[derive(Debug)]
pub enum Value {
    Command(String),
    Conditional(Box<Conditional>),
}

/// The model of a `Value`.
pub enum ValueV {
    Command(Seq<char>),
    Conditional(ConditionalV),
}

impl View for Value {
    type V = ValueV;

    open spec fn view(&self) -> ValueV {
        match self {
            Value::Command(s) => ValueV::Command(s@),
            Value::Conditional(c) => ValueV::Conditional(c@),
        }
    }
}

/// The model of configured `(name, value)` pairs.
pub type Pairs = Seq<(Seq<char>, ValueV)>;

/// The model of a vector of configured pairs.
pub open spec fn pairs_view(v: Seq<(String, Value)>) -> Pairs {
    v.map_values(|p: (String, Value)| (p.0@, p.1@))
}

/// Whether the filters of `c` let the alias through for `shell` on `platform`.
pub open spec fn admits(c: ConditionalV, shell: Shell, platform: Platform) -> bool {
    &&& (c.shell matches Some(m) ==> names(m, shell))
    &&& (c.shell_exclude matches Some(m) ==> !names(m, shell))
    &&& (c.platform matches Some(m) ==> names(m, platform))
    &&& (c.platform_exclude matches Some(m) ==> !names(m, platform))
}

/// The command that `v` contributes for `shell` on `platform`, if any.
pub open spec fn selected(v: ValueV, shell: Shell, platform: Platform) -> Option<Seq<char>> {
    match v {
        ValueV::Command(s) => Some(s),
        ValueV::Conditional(c) => if admits(c, shell, platform) {
            Some(command_for(c, shell))
        } else {
            None
        },
    }
}

/// The `(name, command)` pairs that `ps` contributes for `shell` on
/// `platform`, in order.
pub open spec fn filtered(ps: Pairs, shell: Shell, platform: Platform) -> Entries
    decreases ps.len(),
{
    if ps.len() == 0 {
        Seq::empty()
    } else {
        let rest = filtered(ps.drop_first(), shell, platform);
        match selected(ps[0].1, shell, platform) {
            Some(c) => seq![(ps[0].0, c)] + rest,
            None => rest,
        }
    }
}

/// Keeps the pairs that apply to `shell` on `platform`, each with the command
/// chosen for that shell, in order.
pub fn filter_pairs(pairs: Vec<(String, Value)>, shell: Shell, platform: Platform) -> (out: Vec<(String, String)>)
    ensures
        out@.map_values(|p: (String, String)| (p.0@, p.1@)) == filtered(pairs_view(pairs@), shell, platform),
{
    let ghost all = pairs_view(pairs@);
    let mut rest = pairs;
    let mut out: Vec<(String, String)> = Vec::new();
    while rest.len() > 0
        invariant
            out@.map_values(|p: (String, String)| (p.0@, p.1@)) + filtered(pairs_view(rest@), shell, platform)
                == filtered(all, shell, platform),
        decreases rest.len(),
    {
        let ghost before = rest@;
        let ghost out_before = out@;
        let (name, value) = rest.remove(0);
        assert(pairs_view(rest@) =~= pairs_view(before).drop_first());
        let chosen = match value {
            Value::Command(command) => Some(command),
            Value::Conditional(c) => {
                let shell_ok = match &c.shell {
                    Some(m) => m.contains(&shell),
                    None => true,
                } && match &c.shell_exclude {
                    Some(m) => !m.contains(&shell),
                    None => true,
                };
                let platform_ok = match &c.platform {
                    Some(m) => m.contains(&platform),
                    None => true,
                } && match &c.platform_exclude {
                    Some(m) => !m.contains(&platform),
                    None => true,
                };
                if shell_ok && platform_ok {
                    Some(c.command(shell))
                } else {
                    None
                }
            },
        };
        assert(opt_chars(chosen) == selected(pairs_view(before)[0].1, shell, platform));
        match chosen {
            Some(command) => {
                out.push((name, command));
                assert(out@.map_values(|p: (String, String)| (p.0@, p.1@)) =~= out_before.map_values(
                    |p: (String, String)| (p.0@, p.1@),
                ).push((pairs_view(before)[0].0, opt_chars(chosen).unwrap())));
            },
            None => {},
        }
        assert(out@.map_values(|p: (String, String)| (p.0@, p.1@)) + filtered(pairs_view(rest@), shell, platform)
            =~= filtered(all, shell, platform));
    }
    out
}

/// The model of a vector of `(name, command)` pairs.
pub open spec fn entries_view(v: Seq<(String, String)>) -> Entries {
    v.map_values(|p: (String, String)| (p.0@, p.1@))
}

/// Merges `pairs` into `merged` in order: a name already present is moved to
/// the end with its new command, a new name is appended.
pub fn merge_pairs(merged: &mut IndexMap<String, String>, pairs: Vec<(String, String)>)
    ensures
        alias_entries(*final(merged)) == merge_entries(alias_entries(*old(merged)), entries_view(pairs@)),
{
    let ghost target = merge_entries(alias_entries(*merged), entries_view(pairs@));
    let mut rest = pairs;
    while rest.len() > 0
        invariant
            merge_entries(alias_entries(*merged), entries_view(rest@)) == target,
        decreases rest.len(),
    {
        let ghost before = rest@;
        let ghost es = alias_entries(*merged);
        let (name, command) = rest.remove(0);
        assert(entries_view(rest@) =~= entries_view(before).drop_first());
        alias_map_shift_remove(merged, &name);
        proof {
            lemma_without_key_lacks(es, name@);
        }
        alias_map_insert(merged, name, command);
        assert(alias_entries(*merged) == without_key(es, entries_view(before)[0].0).push(entries_view(before)[0]));
    }
    assert(entries_view(rest@) =~= Seq::<(Seq<char>, Seq<char>)>::empty());
}

/// The pairs of the YAML configuration `content` that apply to `shell` on
/// `platform`, each with its command for that shell, in document order.
pub fn filtered_yaml(content: &str, shell: Shell, platform: Platform) -> (out: Vec<(String, String)>)
    requires
        config_pairs(Format::Yaml, content@) is Ok,
    ensures
        entries_view(out@) == filtered(config_pairs(Format::Yaml, content@)->Ok_0, shell, platform),
{
    match parse_yaml_pairs(content) {
        Ok(pairs) => filter_pairs(pairs, shell, platform),
        Err(_) => {
            assert(false);
            Vec::new()
        },
    }
}

/// `filtered_yaml` for a document that is a valid configuration, `None` for
/// any other.
pub fn try_filtered_yaml(content: &str, shell: Shell, platform: Platform) -> (out: Option<Vec<(String, String)>>)
    ensures
        match out {
            Some(v) => config_pairs(Format::Yaml, content@) is Ok && entries_view(v@) == filtered(
                config_pairs(Format::Yaml, content@)->Ok_0,
                shell,
                platform,
            ),
            None => config_pairs(Format::Yaml, content@) is Err,
        },
{
    match parse_yaml_pairs(content) {
        Ok(_) => Some(filtered_yaml(content, shell, platform)),
        Err(_) => None,
    }
}

/// Reads the configuration `content` in `format` and merges the aliases that
/// apply to `shell` on `platform` into `merged`, in document order; on an
/// error `merged` is left as it was.
pub fn load_into(
    merged: &mut IndexMap<String, String>,
    format: Format,
    content: &str,
    shell: Shell,
    platform: Platform,
) -> (r: Result<(), ConfigError>)
    ensures
        match r {
            Ok(()) => config_pairs(format, content@) is Ok && alias_entries(*final(merged)) == merge_entries(
                alias_entries(*old(merged)),
                filtered(config_pairs(format, content@)->Ok_0, shell, platform),
            ),
            Err(e) => config_pairs(format, content@) == Err::<Pairs, ConfigErrorV>(e@) && *final(merged)
                == *old(merged),
        },
{
    match parse_pairs(format, content) {
        Ok(pairs) => {
            let selected = filter_pairs(pairs, shell, platform);
            merge_pairs(merged, selected);
            Ok(())
        },
        Err(e) => Err(e),
    }
}

/// The alias map of the configuration `content` in `format` for `shell` on
/// `platform`: its applicable aliases in document order, a name given again
/// moving to its latest position with its latest command.
pub fn config_entries(format: Format, content: &str, shell: Shell, platform: Platform) -> (r: Result<
    IndexMap<String, String>,
    ConfigError,
>)
    ensures
        match r {
            Ok(m) => config_pairs(format, content@) is Ok && alias_entries(m) == merge_entries(
                Seq::empty(),
                filtered(config_pairs(format, content@)->Ok_0, shell, platform),
            ),
            Err(e) => config_pairs(format, content@) == Err::<Pairs, ConfigErrorV>(e@),
        },
{
    let mut merged = new_alias_map();
    match load_into(&mut merged, format, content, shell, platform) {
        Ok(()) => Ok(merged),
        Err(e) => Err(e),
    }
}

/// Law: plain command values are kept for every shell and every platform,
/// with their command and in their order.
pub proof fn law_plain_commands_kept_everywhere(ps: Pairs, shell: Shell, platform: Platform)
    requires
        forall|i: int| 0 <= i < ps.len() ==> (#[trigger] ps[i]).1 is Command,
    ensures
        filtered(ps, shell, platform) == ps.map_values(|p: (Seq<char>, ValueV)| (p.0, p.1->Command_0)),
    decreases ps.len(),
{
    if ps.len() > 0 {
        let rest = ps.drop_first();
        assert forall|i: int| 0 <= i < rest.len() implies (#[trigger] rest[i]).1 is Command by {
            assert(rest[i] == ps[i + 1]);
        }
        law_plain_commands_kept_everywhere(rest, shell, platform);
        assert(ps[0].1 is Command);
        assert(seq![(ps[0].0, ps[0].1->Command_0)] + rest.map_values(|p: (Seq<char>, ValueV)| (p.0, p.1->Command_0))
            =~= ps.map_values(|p: (Seq<char>, ValueV)| (p.0, p.1->Command_0)));
    }
}

/// Law: a conditional alias without shell or platform filters is kept for
/// every shell and platform, with its command for the shell.
pub proof fn law_unfiltered_conditional_kept_everywhere(c: ConditionalV, shell: Shell, platform: Platform)
    requires
        c.shell is None,
        c.shell_exclude is None,
        c.platform is None,
        c.platform_exclude is None,
    ensures
        selected(ValueV::Conditional(c), shell, platform) == Some(command_for(c, shell)),
{
}

/// Law: `cmd` is the fallback: a shell without a command of its own gets
/// `cmd`; PowerShell conflict mode uses PowerShell's command unless it has a
/// command of its own.
pub proof fn law_command_fallbacks(c: ConditionalV)
    ensures
        c.cmd_bash is None ==> command_for(c, Shell::Bash) == c.cmd,
        c.cmd_fish is None ==> command_for(c, Shell::Fish) == c.cmd,
        c.cmd_pwsh is None ==> command_for(c, Shell::Pwsh) == c.cmd,
        c.cmd_zsh is None ==> command_for(c, Shell::Zsh) == c.cmd,
        c.cmd_pwsh_conflict is None ==> command_for(c, Shell::PwshConflict) == command_for(c, Shell::Pwsh),
        c.cmd_pwsh_conflict matches Some(x) ==> command_for(c, Shell::PwshConflict) == x,
{
}

/// Law: a shell with a command of its own gets that command, not `cmd`;
/// PowerShell conflict mode without a command of its own gets PowerShell's.
pub proof fn law_own_command_wins(c: ConditionalV)
    ensures
        c.cmd_bash matches Some(x) ==> command_for(c, Shell::Bash) == x,
        c.cmd_fish matches Some(x) ==> command_for(c, Shell::Fish) == x,
        c.cmd_pwsh matches Some(x) ==> command_for(c, Shell::Pwsh) == x,
        c.cmd_zsh matches Some(x) ==> command_for(c, Shell::Zsh) == x,
        c.cmd_pwsh_conflict is None ==> (c.cmd_pwsh matches Some(x) ==> command_for(c, Shell::PwshConflict) == x),
{
}

/// Law: an include filter and the exclude filter with the same names select
/// complementary sets of shells (and of platforms).
pub proof fn law_include_and_exclude_are_complementary(
    c: ConditionalV,
    shells: OneOrManyV<Shell>,
    platforms: OneOrManyV<Platform>,
    shell: Shell,
    platform: Platform,
)
    ensures
        admits(ConditionalV { shell: Some(shells), shell_exclude: None, platform: None, platform_exclude: None, ..c }, shell, platform)
            != admits(ConditionalV { shell: None, shell_exclude: Some(shells), platform: None, platform_exclude: None, ..c }, shell, platform),
        admits(ConditionalV { shell: None, shell_exclude: None, platform: Some(platforms), platform_exclude: None, ..c }, shell, platform)
            != admits(ConditionalV { shell: None, shell_exclude: None, platform: None, platform_exclude: Some(platforms), ..c }, shell, platform),
{
}

/// The error of loading the configuration `content` in `format` on the
/// operating system named `os`, if any: a syntax or shape error of the
/// configuration comes first, then an unknown operating system, then an
/// alias with both an include and an exclude filter.
pub open spec fn load_error(format: Format, content: Seq<char>, os: Seq<char>) -> Option<ConfigErrorV> {
    match config_pairs(format, content) {
        Err(ConfigErrorV::Syntax(m)) => Some(ConfigErrorV::Syntax(m)),
        Err(ConfigErrorV::Shape) => Some(ConfigErrorV::Shape),
        Err(later) => match platform_of_os(os) {
            Err(pe) => Some(pe),
            Ok(_) => Some(later),
        },
        Ok(_) => match platform_of_os(os) {
            Err(pe) => Some(pe),
            Ok(_) => None,
        },
    }
}

/// The alias map of the configuration `content` in `format` for `shell` on
/// the operating system named `os`, or the first error in the order of
/// `load_error`.
pub fn load_entries(format: Format, content: &str, shell: Shell, os: &str) -> (r: Result<
    IndexMap<String, String>,
    ConfigError,
>)
    ensures
        match r {
            Ok(m) => load_error(format, content@, os@) is None && config_pairs(format, content@) is Ok
                && platform_of_os(os@) is Ok && alias_entries(m) == merge_entries(
                Seq::empty(),
                filtered(config_pairs(format, content@)->Ok_0, shell, platform_of_os(os@)->Ok_0),
            ),
            Err(e) => load_error(format, content@, os@) == Some(e@),
        },
{
    let pairs = match parse_pairs(format, content) {
        Ok(pairs) => pairs,
        Err(ConfigError::Syntax(m)) => return Err(ConfigError::Syntax(m)),
        Err(ConfigError::Shape) => return Err(ConfigError::Shape),
        Err(later) => {
            return match platform_from_os(os) {
                Err(pe) => Err(pe),
                Ok(_) => Err(later),
            };
        },
    };
    let platform = match platform_from_os(os) {
        Ok(p) => p,
        Err(e) => return Err(e),
    };
    let selected = filter_pairs(pairs, shell, platform);
    let mut merged = new_alias_map();
    merge_pairs(&mut merged, selected);
    Ok(merged)
}

} // verus!
