//! Decoding a parsed document into configured `(name, value)` pairs.
//!
//! The accepted shapes are those of the configuration format: either a
//! mapping from names to values, or a sequence of `[name, value]` pairs; a
//! value is either a command string or a mapping with a required `cmd` and
//! optional `cmd.<shell>`, `shell`/`shellInclude`, `shellExclude`,
//! `platform`/`platformInclude` and `platformExclude` entries (or the list
//! of those ten values in that order). A filter is a name or a list of names,
//! where a name is a string or a one-entry mapping `{name: null}`;
//! `null` counts as absent; other keys are ignored. A key repeated within
//! one mapping is merged by the parser, which keeps its last value, before
//! decoding starts; a field given under both its name and its alias (such as
//! `shell` and `shellInclude`) is an error.
use crate::config::{
    Conditional, ConditionalV, OneOrMany, OneOrManyV, Pairs, Platform, Value, ValueV, opt_chars,
    opt_filter, pairs_view,
};
use crate::document::{Doc, DocV, json_document, parse_result_view, read_json, read_yaml, yaml_document};
use crate::utils::jsonc::{strip_json_comments, without_comments};
use crate::render::Shell;
use vstd::prelude::*;

verus! {

/// Errors of reading a configuration.
#[derive(Debug)]
pub enum ConfigError {
    /// The text is not well-formed; the parser's message.
    Syntax(String),
    /// The document does not have the shape of a configuration.
    Shape,
    /// An alias has both a shell include and a shell exclude filter.
    ShellFilters,
    /// An alias has both a platform include and a platform exclude filter.
    PlatformFilters,
    /// The operating system is none of the supported platforms.
    UnknownPlatform(String),
    /// No home directory is known.
    NoHome,
}

/// The model of a `ConfigError`.
pub enum ConfigErrorV {
    Syntax(Seq<char>),
    Shape,
    ShellFilters,
    PlatformFilters,
    UnknownPlatform(Seq<char>),
    NoHome,
}

impl View for ConfigError {
    type V = ConfigErrorV;

    open spec fn view(&self) -> ConfigErrorV {
        match self {
            ConfigError::Syntax(m) => ConfigErrorV::Syntax(m@),
            ConfigError::Shape => ConfigErrorV::Shape,
            ConfigError::ShellFilters => ConfigErrorV::ShellFilters,
            ConfigError::PlatformFilters => ConfigErrorV::PlatformFilters,
            ConfigError::UnknownPlatform(p) => ConfigErrorV::UnknownPlatform(p@),
            ConfigError::NoHome => ConfigErrorV::NoHome,
        }
    }
}

/// The message that describes an error.
pub open spec fn error_message(e: ConfigErrorV) -> Seq<char> {
    match e {
        ConfigErrorV::Syntax(m) => m,
        ConfigErrorV::Shape => "data did not match any variant of untagged enum Config"@,
        ConfigErrorV::ShellFilters => "shell include and exclude are mutually exclusive"@,
        ConfigErrorV::PlatformFilters => "platform include and exclude are mutually exclusive"@,
        ConfigErrorV::UnknownPlatform(p) => "unrecognized platform: "@ + p,
        ConfigErrorV::NoHome => "home directory not found"@,
    }
}

impl ConfigError {
    /// The message that describes this error.
    pub fn message(&self) -> (m: String)
        ensures
            m@ == error_message(self@),
    {
        match self {
            ConfigError::Syntax(m) => m.clone(),
            ConfigError::Shape => "data did not match any variant of untagged enum Config".to_owned(),
            ConfigError::ShellFilters => "shell include and exclude are mutually exclusive".to_owned(),
            ConfigError::PlatformFilters => "platform include and exclude are mutually exclusive".to_owned(),
            ConfigError::UnknownPlatform(p) => {
                let mut m = "unrecognized platform: ".to_owned();
                m.append(p.as_str());
                m
            },
            ConfigError::NoHome => "home directory not found".to_owned(),
        }
    }
}

/// Whether `s` reads `lit`.
fn is_text(s: &String, lit: &str) -> (r: bool)
    ensures
        r == (s@ == lit@),
{
    let l = lit.to_owned();
    *s == l
}

/// The string that the JSON text `t` denotes, if it denotes one.
pub open spec fn string_in(t: Seq<char>) -> Option<Seq<char>> {
    match json_document(t) {
        Ok(DocV::Str(s)) => Some(s),
        _ => None,
    }
}

/// Whether the JSON text `t` denotes `null`.
pub open spec fn is_null(t: Seq<char>) -> bool {
    json_document(t) == Ok::<DocV, Seq<char>>(DocV::Null)
}

/// An optional string: `null` is absent.
pub open spec fn optional_string_in(t: Seq<char>) -> Option<Option<Seq<char>>> {
    if is_null(t) {
        Some(None)
    } else {
        match string_in(t) {
            Some(s) => Some(Some(s)),
            None => None,
        }
    }
}

/// The shell named `s`.
pub open spec fn shell_named(s: Seq<char>) -> Option<Shell> {
    if s == "bash"@ {
        Some(Shell::Bash)
    } else if s == "fish"@ {
        Some(Shell::Fish)
    } else if s == "pwsh"@ {
        Some(Shell::Pwsh)
    } else if s == "pwsh-conflict"@ {
        Some(Shell::PwshConflict)
    } else if s == "zsh"@ {
        Some(Shell::Zsh)
    } else {
        None
    }
}

/// The platform named `s`.
pub open spec fn platform_named(s: Seq<char>) -> Option<Platform> {
    if s == "windows"@ {
        Some(Platform::Windows)
    } else if s == "linux"@ {
        Some(Platform::Linux)
    } else if s == "macos"@ {
        Some(Platform::Macos)
    } else {
        None
    }
}

/// The name that the JSON text `t` gives: a string, or a mapping with a
/// single entry whose value is `null` (the other way of writing a unit
/// enum variant).
pub open spec fn name_in(t: Seq<char>) -> Option<Seq<char>> {
    match json_document(t) {
        Ok(DocV::Str(s)) => Some(s),
        Ok(DocV::Mapping(es)) => if es.len() == 1 && is_null(es[0].1) {
            Some(es[0].0)
        } else {
            None
        },
        _ => None,
    }
}

/// The shell that the JSON text `t` names.
pub open spec fn shell_in(t: Seq<char>) -> Option<Shell> {
    match name_in(t) {
        Some(s) => shell_named(s),
        None => None,
    }
}

/// The platform that the JSON text `t` names.
pub open spec fn platform_in(t: Seq<char>) -> Option<Platform> {
    match name_in(t) {
        Some(s) => platform_named(s),
        None => None,
    }
}

/// A shell filter: one shell name, or a list of them.
pub open spec fn shells_in(t: Seq<char>) -> Option<OneOrManyV<Shell>> {
    match json_document(t) {
        Ok(DocV::Sequence(items)) => if forall|i: int| 0 <= i < items.len() ==> (#[trigger] shell_in(items[i])) is Some {
            Some(OneOrManyV::Many(items.map_values(|x: Seq<char>| shell_in(x).unwrap())))
        } else {
            None
        },
        _ => match shell_in(t) {
            Some(x) => Some(OneOrManyV::One(x)),
            None => None,
        },
    }
}

/// A platform filter: one platform name, or a list of them.
pub open spec fn platforms_in(t: Seq<char>) -> Option<OneOrManyV<Platform>> {
    match json_document(t) {
        Ok(DocV::Sequence(items)) => if forall|i: int| 0 <= i < items.len() ==> (#[trigger] platform_in(items[i])) is Some {
            Some(OneOrManyV::Many(items.map_values(|x: Seq<char>| platform_in(x).unwrap())))
        } else {
            None
        },
        _ => match platform_in(t) {
            Some(x) => Some(OneOrManyV::One(x)),
            None => None,
        },
    }
}

/// An optional shell filter: `null` is absent.
pub open spec fn optional_shells_in(t: Seq<char>) -> Option<Option<OneOrManyV<Shell>>> {
    if is_null(t) {
        Some(None)
    } else {
        match shells_in(t) {
            Some(m) => Some(Some(m)),
            None => None,
        }
    }
}

/// An optional platform filter: `null` is absent.
pub open spec fn optional_platforms_in(t: Seq<char>) -> Option<Option<OneOrManyV<Platform>>> {
    if is_null(t) {
        Some(None)
    } else {
        match platforms_in(t) {
            Some(m) => Some(Some(m)),
            None => None,
        }
    }
}

/// Reads the string that the JSON text `t` denotes.
fn read_string(t: &str) -> (r: Option<String>)
    ensures
        opt_chars(r) == string_in(t@),
{
    match read_json(t) {
        Ok(Doc::Str(s)) => Some(s),
        _ => None,
    }
}

/// Reads an optional string.
fn read_optional_string(t: &str) -> (r: Option<Option<String>>)
    ensures
        match r {
            Some(o) => optional_string_in(t@) == Some(opt_chars(o)),
            None => optional_string_in(t@) is None,
        },
{
    match read_json(t) {
        Ok(Doc::Null) => Some(None),
        Ok(Doc::Str(s)) => Some(Some(s)),
        _ => None,
    }
}

/// The shell named `s` (`bash`, `fish`, `pwsh`, `pwsh-conflict` or `zsh`).
pub fn read_shell_name(s: &String) -> (r: Option<Shell>)
    ensures
        r == shell_named(s@),
{
    if is_text(s, "bash") {
        Some(Shell::Bash)
    } else if is_text(s, "fish") {
        Some(Shell::Fish)
    } else if is_text(s, "pwsh") {
        Some(Shell::Pwsh)
    } else if is_text(s, "pwsh-conflict") {
        Some(Shell::PwshConflict)
    } else if is_text(s, "zsh") {
        Some(Shell::Zsh)
    } else {
        None
    }
}

/// Reads a platform name.
fn read_platform_name(s: &String) -> (r: Option<Platform>)
    ensures
        r == platform_named(s@),
{
    if is_text(s, "windows") {
        Some(Platform::Windows)
    } else if is_text(s, "linux") {
        Some(Platform::Linux)
    } else if is_text(s, "macos") {
        Some(Platform::Macos)
    } else {
        None
    }
}

/// Reads the name that the JSON text `t` gives.
fn read_name(t: &str) -> (r: Option<String>)
    ensures
        opt_chars(r) == name_in(t@),
{
    match read_json(t) {
        Ok(Doc::Str(s)) => Some(s),
        Ok(Doc::Mapping(entries)) => {
            let ghost es = entries@.map_values(|e: (String, String)| (e.0@, e.1@));
            if entries.len() != 1 {
                return None;
            }
            assert(es[0] == (entries@[0].0@, entries@[0].1@));
            match read_json(entries[0].1.as_str()) {
                Ok(Doc::Null) => Some(entries[0].0.clone()),
                _ => None,
            }
        },
        _ => None,
    }
}

/// Reads the shell that the JSON text `t` names.
fn read_shell(t: &str) -> (r: Option<Shell>)
    ensures
        r == shell_in(t@),
{
    match read_name(t) {
        Some(name) => read_shell_name(&name),
        None => None,
    }
}

/// Reads the platform that the JSON text `t` names.
fn read_platform(t: &str) -> (r: Option<Platform>)
    ensures
        r == platform_in(t@),
{
    match read_name(t) {
        Some(name) => read_platform_name(&name),
        None => None,
    }
}

/// Reads a shell filter.
fn read_shells(t: &str) -> (r: Option<OneOrMany<Shell>>)
    ensures
        opt_filter(r) == shells_in(t@),
{
    match read_json(t) {
        Ok(Doc::Sequence(items)) => {
            let ghost texts = items@.map_values(|x: String| x@);
            let mut out: Vec<Shell> = Vec::new();
            let mut i: usize = 0;
            while i < items.len()
                invariant
                    i <= items.len(),
                    texts == items@.map_values(|x: String| x@),
                    json_document(t@) == Ok::<DocV, Seq<char>>(DocV::Sequence(texts)),
                    out@.len() == i,
                    forall|j: int| 0 <= j < i ==> (#[trigger] shell_in(texts[j])) == Some(out@[j]),
                decreases items.len() - i,
            {
                match read_shell(items[i].as_str()) {
                    Some(x) => out.push(x),
                    None => {
                        assert(shell_in(texts[i as int]) is None);
                        return None;
                    },
                }
                i += 1;
            }
            assert(out@ =~= texts.map_values(|x: Seq<char>| shell_in(x).unwrap()));
            Some(OneOrMany::Many(out))
        },
        _ => match read_shell(t) {
            Some(x) => Some(OneOrMany::One(x)),
            None => None,
        },
    }
}

/// Reads a platform filter.
fn read_platforms(t: &str) -> (r: Option<OneOrMany<Platform>>)
    ensures
        opt_filter(r) == platforms_in(t@),
{
    match read_json(t) {
        Ok(Doc::Sequence(items)) => {
            let ghost texts = items@.map_values(|x: String| x@);
            let mut out: Vec<Platform> = Vec::new();
            let mut i: usize = 0;
            while i < items.len()
                invariant
                    i <= items.len(),
                    texts == items@.map_values(|x: String| x@),
                    json_document(t@) == Ok::<DocV, Seq<char>>(DocV::Sequence(texts)),
                    out@.len() == i,
                    forall|j: int| 0 <= j < i ==> (#[trigger] platform_in(texts[j])) == Some(out@[j]),
                decreases items.len() - i,
            {
                match read_platform(items[i].as_str()) {
                    Some(x) => out.push(x),
                    None => {
                        assert(platform_in(texts[i as int]) is None);
                        return None;
                    },
                }
                i += 1;
            }
            assert(out@ =~= texts.map_values(|x: Seq<char>| platform_in(x).unwrap()));
            Some(OneOrMany::Many(out))
        },
        _ => match read_platform(t) {
            Some(x) => Some(OneOrMany::One(x)),
            None => None,
        },
    }
}

/// Reads an optional shell filter.
fn read_optional_shells(t: &str) -> (r: Option<Option<OneOrMany<Shell>>>)
    ensures
        match r {
            Some(o) => optional_shells_in(t@) == Some(opt_filter(o)),
            None => optional_shells_in(t@) is None,
        },
{
    match read_json(t) {
        Ok(Doc::Null) => Some(None),
        _ => match read_shells(t) {
            Some(m) => Some(Some(m)),
            None => None,
        },
    }
}

/// Reads an optional platform filter.
fn read_optional_platforms(t: &str) -> (r: Option<Option<OneOrMany<Platform>>>)
    ensures
        match r {
            Some(o) => optional_platforms_in(t@) == Some(opt_filter(o)),
            None => optional_platforms_in(t@) is None,
        },
{
    match read_json(t) {
        Ok(Doc::Null) => Some(None),
        _ => match read_platforms(t) {
            Some(m) => Some(Some(m)),
            None => None,
        },
    }
}

/// The entries of a conditional alias.
#[derive(Clone, Copy, Debug, PartialEq, Eq, Structural)]
pub enum Field {
    Cmd,
    CmdBash,
    CmdFish,
    CmdPwsh,
    CmdPwshConflict,
    CmdZsh,
    ShellOnly,
    ShellExclude,
    PlatformOnly,
    PlatformExclude,
}

/// The entry that the key `k` names, if any (`shellInclude` and
/// `platformInclude` are other names of `shell` and `platform`).
pub open spec fn field_named(k: Seq<char>) -> Option<Field> {
    if k == "cmd"@ {
        Some(Field::Cmd)
    } else if k == "cmd.bash"@ {
        Some(Field::CmdBash)
    } else if k == "cmd.fish"@ {
        Some(Field::CmdFish)
    } else if k == "cmd.pwsh"@ {
        Some(Field::CmdPwsh)
    } else if k == "cmd.pwsh-conflict"@ {
        Some(Field::CmdPwshConflict)
    } else if k == "cmd.zsh"@ {
        Some(Field::CmdZsh)
    } else if k == "shell"@ || k == "shellInclude"@ {
        Some(Field::ShellOnly)
    } else if k == "shellExclude"@ {
        Some(Field::ShellExclude)
    } else if k == "platform"@ || k == "platformInclude"@ {
        Some(Field::PlatformOnly)
    } else if k == "platformExclude"@ {
        Some(Field::PlatformExclude)
    } else {
        None
    }
}

fn read_field_name(k: &String) -> (r: Option<Field>)
    ensures
        r == field_named(k@),
{
    if is_text(k, "cmd") {
        Some(Field::Cmd)
    } else if is_text(k, "cmd.bash") {
        Some(Field::CmdBash)
    } else if is_text(k, "cmd.fish") {
        Some(Field::CmdFish)
    } else if is_text(k, "cmd.pwsh") {
        Some(Field::CmdPwsh)
    } else if is_text(k, "cmd.pwsh-conflict") {
        Some(Field::CmdPwshConflict)
    } else if is_text(k, "cmd.zsh") {
        Some(Field::CmdZsh)
    } else if is_text(k, "shell") || is_text(k, "shellInclude") {
        Some(Field::ShellOnly)
    } else if is_text(k, "shellExclude") {
        Some(Field::ShellExclude)
    } else if is_text(k, "platform") || is_text(k, "platformInclude") {
        Some(Field::PlatformOnly)
    } else if is_text(k, "platformExclude") {
        Some(Field::PlatformExclude)
    } else {
        None
    }
}

/// The entries of a conditional alias read so far: `None` for an entry not
/// seen yet, `Some(x)` for one seen with value `x`.
pub struct FieldsV {
    pub cmd: Option<Seq<char>>,
    pub cmd_bash: Option<Option<Seq<char>>>,
    pub cmd_fish: Option<Option<Seq<char>>>,
    pub cmd_pwsh: Option<Option<Seq<char>>>,
    pub cmd_pwsh_conflict: Option<Option<Seq<char>>>,
    pub cmd_zsh: Option<Option<Seq<char>>>,
    pub shell: Option<Option<OneOrManyV<Shell>>>,
    pub shell_exclude: Option<Option<OneOrManyV<Shell>>>,
    pub platform: Option<Option<OneOrManyV<Platform>>>,
    pub platform_exclude: Option<Option<OneOrManyV<Platform>>>,
}

/// No entry seen yet.
pub open spec fn no_fields() -> FieldsV {
    FieldsV {
        cmd: None,
        cmd_bash: None,
        cmd_fish: None,
        cmd_pwsh: None,
        cmd_pwsh_conflict: None,
        cmd_zsh: None,
        shell: None,
        shell_exclude: None,
        platform: None,
        platform_exclude: None,
    }
}

/// Reading entry `f` with value text `t` into `acc`; `None` when the entry was
/// already seen or its value does not fit.
pub open spec fn field_step(acc: FieldsV, f: Field, t: Seq<char>) -> Option<FieldsV> {
    match f {
        Field::Cmd => if acc.cmd is Some {
            None
        } else {
            match string_in(t) {
                Some(s) => Some(FieldsV { cmd: Some(s), ..acc }),
                None => None,
            }
        },
        Field::CmdBash => if acc.cmd_bash is Some {
            None
        } else {
            match optional_string_in(t) {
                Some(o) => Some(FieldsV { cmd_bash: Some(o), ..acc }),
                None => None,
            }
        },
        Field::CmdFish => if acc.cmd_fish is Some {
            None
        } else {
            match optional_string_in(t) {
                Some(o) => Some(FieldsV { cmd_fish: Some(o), ..acc }),
                None => None,
            }
        },
        Field::CmdPwsh => if acc.cmd_pwsh is Some {
            None
        } else {
            match optional_string_in(t) {
                Some(o) => Some(FieldsV { cmd_pwsh: Some(o), ..acc }),
                None => None,
            }
        },
        Field::CmdPwshConflict => if acc.cmd_pwsh_conflict is Some {
            None
        } else {
            match optional_string_in(t) {
                Some(o) => Some(FieldsV { cmd_pwsh_conflict: Some(o), ..acc }),
                None => None,
            }
        },
        Field::CmdZsh => if acc.cmd_zsh is Some {
            None
        } else {
            match optional_string_in(t) {
                Some(o) => Some(FieldsV { cmd_zsh: Some(o), ..acc }),
                None => None,
            }
        },
        Field::ShellOnly => if acc.shell is Some {
            None
        } else {
            match optional_shells_in(t) {
                Some(o) => Some(FieldsV { shell: Some(o), ..acc }),
                None => None,
            }
        },
        Field::ShellExclude => if acc.shell_exclude is Some {
            None
        } else {
            match optional_shells_in(t) {
                Some(o) => Some(FieldsV { shell_exclude: Some(o), ..acc }),
                None => None,
            }
        },
        Field::PlatformOnly => if acc.platform is Some {
            None
        } else {
            match optional_platforms_in(t) {
                Some(o) => Some(FieldsV { platform: Some(o), ..acc }),
                None => None,
            }
        },
        Field::PlatformExclude => if acc.platform_exclude is Some {
            None
        } else {
            match optional_platforms_in(t) {
                Some(o) => Some(FieldsV { platform_exclude: Some(o), ..acc }),
                None => None,
            }
        },
    }
}

/// Reading the `(key, value text)` entries `es` in order into `acc`; keys that
/// name no entry are skipped.
pub open spec fn fields_from(acc: FieldsV, es: Seq<(Seq<char>, Seq<char>)>) -> Option<FieldsV>
    decreases es.len(),
{
    if es.len() == 0 {
        Some(acc)
    } else {
        let next = match field_named(es[0].0) {
            Some(f) => field_step(acc, f, es[0].1),
            None => Some(acc),
        };
        match next {
            Some(a) => fields_from(a, es.drop_first()),
            None => None,
        }
    }
}

/// An optional value that may have been seen: absent when not seen.
pub open spec fn seen<T>(o: Option<Option<T>>) -> Option<T> {
    match o {
        Some(x) => x,
        None => None,
    }
}

/// The conditional alias made of the entries read, if `cmd` was given.
pub open spec fn conditional_of(f: FieldsV) -> Option<ConditionalV> {
    match f.cmd {
        Some(c) => Some(
            ConditionalV {
                cmd: c,
                cmd_bash: seen(f.cmd_bash),
                cmd_fish: seen(f.cmd_fish),
                cmd_pwsh: seen(f.cmd_pwsh),
                cmd_pwsh_conflict: seen(f.cmd_pwsh_conflict),
                cmd_zsh: seen(f.cmd_zsh),
                shell: seen(f.shell),
                shell_exclude: seen(f.shell_exclude),
                platform: seen(f.platform),
                platform_exclude: seen(f.platform_exclude),
            },
        ),
        None => None,
    }
}

/// The conditional alias described by the mapping entries `es`.
pub open spec fn conditional_in(es: Seq<(Seq<char>, Seq<char>)>) -> Option<ConditionalV> {
    match fields_from(no_fields(), es) {
        Some(f) => conditional_of(f),
        None => None,
    }
}

/// The conditional alias described by a sequence of exactly ten values, in
/// the order `cmd`, `cmd.bash`, `cmd.fish`, `cmd.pwsh`, `cmd.pwsh-conflict`,
/// `cmd.zsh`, `shell`, `shellExclude`, `platform`, `platformExclude` (`null`
/// for an absent one).
pub open spec fn positional_conditional_in(items: Seq<Seq<char>>) -> Option<ConditionalV> {
    if items.len() != 10 {
        None
    } else {
        match (
            string_in(items[0]),
            optional_string_in(items[1]),
            optional_string_in(items[2]),
            optional_string_in(items[3]),
            optional_string_in(items[4]),
            optional_string_in(items[5]),
            optional_shells_in(items[6]),
            optional_shells_in(items[7]),
            optional_platforms_in(items[8]),
            optional_platforms_in(items[9]),
        ) {
            (Some(cmd), Some(b), Some(f), Some(p), Some(pc), Some(z), Some(sh), Some(sx), Some(pl), Some(px)) => Some(
                ConditionalV {
                    cmd,
                    cmd_bash: b,
                    cmd_fish: f,
                    cmd_pwsh: p,
                    cmd_pwsh_conflict: pc,
                    cmd_zsh: z,
                    shell: sh,
                    shell_exclude: sx,
                    platform: pl,
                    platform_exclude: px,
                },
            ),
            _ => None,
        }
    }
}

/// The alias value that the JSON text `t` denotes: a command string, or a
/// mapping (or a sequence of its ten values in order) that describes a
/// conditional alias.
pub open spec fn value_in(t: Seq<char>) -> Option<ValueV> {
    match json_document(t) {
        Ok(DocV::Str(s)) => Some(ValueV::Command(s)),
        Ok(DocV::Mapping(es)) => match conditional_in(es) {
            Some(c) => Some(ValueV::Conditional(c)),
            None => None,
        },
        Ok(DocV::Sequence(items)) => match positional_conditional_in(items) {
            Some(c) => Some(ValueV::Conditional(c)),
            None => None,
        },
        _ => None,
    }
}

/// The entries of a conditional alias read so far.
struct Fields {
    cmd: Option<String>,
    cmd_bash: Option<Option<String>>,
    cmd_fish: Option<Option<String>>,
    cmd_pwsh: Option<Option<String>>,
    cmd_pwsh_conflict: Option<Option<String>>,
    cmd_zsh: Option<Option<String>>,
    shell: Option<Option<OneOrMany<Shell>>>,
    shell_exclude: Option<Option<OneOrMany<Shell>>>,
    platform: Option<Option<OneOrMany<Platform>>>,
    platform_exclude: Option<Option<OneOrMany<Platform>>>,
}

spec fn seen_chars(o: Option<Option<String>>) -> Option<Option<Seq<char>>> {
    match o {
        Some(x) => Some(opt_chars(x)),
        None => None,
    }
}

spec fn seen_filter<T>(o: Option<Option<OneOrMany<T>>>) -> Option<Option<OneOrManyV<T>>> {
    match o {
        Some(x) => Some(opt_filter(x)),
        None => None,
    }
}

impl View for Fields {
    type V = FieldsV;

    closed spec fn view(&self) -> FieldsV {
        FieldsV {
            cmd: opt_chars(self.cmd),
            cmd_bash: seen_chars(self.cmd_bash),
            cmd_fish: seen_chars(self.cmd_fish),
            cmd_pwsh: seen_chars(self.cmd_pwsh),
            cmd_pwsh_conflict: seen_chars(self.cmd_pwsh_conflict),
            cmd_zsh: seen_chars(self.cmd_zsh),
            shell: seen_filter(self.shell),
            shell_exclude: seen_filter(self.shell_exclude),
            platform: seen_filter(self.platform),
            platform_exclude: seen_filter(self.platform_exclude),
        }
    }
}

/// Reads entry `f` with value text `t` into `fields`.
fn read_field(fields: &mut Fields, f: Field, t: &str) -> (ok: bool)
    ensures
        ok == (field_step(old(fields)@, f, t@) is Some),
        ok ==> final(fields)@ == field_step(old(fields)@, f, t@).unwrap(),
{
    match f {
        Field::Cmd => {
            if fields.cmd.is_some() {
                return false;
            }
            match read_string(t) {
                Some(s) => {
                    fields.cmd = Some(s);
                    true
                },
                None => false,
            }
        },
        Field::CmdBash => {
            if fields.cmd_bash.is_some() {
                return false;
            }
            match read_optional_string(t) {
                Some(o) => {
                    fields.cmd_bash = Some(o);
                    true
                },
                None => false,
            }
        },
        Field::CmdFish => {
            if fields.cmd_fish.is_some() {
                return false;
            }
            match read_optional_string(t) {
                Some(o) => {
                    fields.cmd_fish = Some(o);
                    true
                },
                None => false,
            }
        },
        Field::CmdPwsh => {
            if fields.cmd_pwsh.is_some() {
                return false;
            }
            match read_optional_string(t) {
                Some(o) => {
                    fields.cmd_pwsh = Some(o);
                    true
                },
                None => false,
            }
        },
        Field::CmdPwshConflict => {
            if fields.cmd_pwsh_conflict.is_some() {
                return false;
            }
            match read_optional_string(t) {
                Some(o) => {
                    fields.cmd_pwsh_conflict = Some(o);
                    true
                },
                None => false,
            }
        },
        Field::CmdZsh => {
            if fields.cmd_zsh.is_some() {
                return false;
            }
            match read_optional_string(t) {
                Some(o) => {
                    fields.cmd_zsh = Some(o);
                    true
                },
                None => false,
            }
        },
        Field::ShellOnly => {
            if fields.shell.is_some() {
                return false;
            }
            match read_optional_shells(t) {
                Some(o) => {
                    fields.shell = Some(o);
                    true
                },
                None => false,
            }
        },
        Field::ShellExclude => {
            if fields.shell_exclude.is_some() {
                return false;
            }
            match read_optional_shells(t) {
                Some(o) => {
                    fields.shell_exclude = Some(o);
                    true
                },
                None => false,
            }
        },
        Field::PlatformOnly => {
            if fields.platform.is_some() {
                return false;
            }
            match read_optional_platforms(t) {
                Some(o) => {
                    fields.platform = Some(o);
                    true
                },
                None => false,
            }
        },
        Field::PlatformExclude => {
            if fields.platform_exclude.is_some() {
                return false;
            }
            match read_optional_platforms(t) {
                Some(o) => {
                    fields.platform_exclude = Some(o);
                    true
                },
                None => false,
            }
        },
    }
}

fn take_seen<T>(o: Option<Option<T>>) -> (r: Option<T>)
    ensures
        r == seen(o),
{
    match o {
        Some(x) => x,
        None => None,
    }
}

/// Reads a conditional alias from its mapping entries.
fn read_conditional(entries: &Vec<(String, String)>) -> (r: Option<Conditional>)
    ensures
        match r {
            Some(c) => conditional_in(entries@.map_values(|e: (String, String)| (e.0@, e.1@))) == Some(c@),
            None => conditional_in(entries@.map_values(|e: (String, String)| (e.0@, e.1@))) is None,
        },
{
    let ghost es = entries@.map_values(|e: (String, String)| (e.0@, e.1@));
    let mut fields = Fields {
        cmd: None,
        cmd_bash: None,
        cmd_fish: None,
        cmd_pwsh: None,
        cmd_pwsh_conflict: None,
        cmd_zsh: None,
        shell: None,
        shell_exclude: None,
        platform: None,
        platform_exclude: None,
    };
    assert(fields@ == no_fields());
    assert(es.skip(0) =~= es);
    let mut i: usize = 0;
    while i < entries.len()
        invariant
            i <= entries.len(),
            es == entries@.map_values(|e: (String, String)| (e.0@, e.1@)),
            fields_from(fields@, es.skip(i as int)) == fields_from(no_fields(), es),
        decreases entries.len() - i,
    {
        assert(es.skip(i as int).drop_first() =~= es.skip(i + 1));
        assert(es.skip(i as int)[0] == es[i as int]);
        match read_field_name(&entries[i].0) {
            Some(f) => {
                if !read_field(&mut fields, f, entries[i].1.as_str()) {
                    return None;
                }
            },
            None => {},
        }
        i += 1;
    }
    let done = fields;
    proof {
        assert(es.skip(i as int).len() == 0);
    }
    match done.cmd {
        Some(cmd) => {
            let c = Conditional {
                cmd,
                cmd_bash: take_seen(done.cmd_bash),
                cmd_fish: take_seen(done.cmd_fish),
                cmd_pwsh: take_seen(done.cmd_pwsh),
                cmd_pwsh_conflict: take_seen(done.cmd_pwsh_conflict),
                cmd_zsh: take_seen(done.cmd_zsh),
                shell: take_seen(done.shell),
                shell_exclude: take_seen(done.shell_exclude),
                platform: take_seen(done.platform),
                platform_exclude: take_seen(done.platform_exclude),
            };
            Some(c)
        },
        None => None,
    }
}

/// Reads the alias value that the JSON text `t` denotes.
fn read_value(t: &str) -> (r: Option<Value>)
    ensures
        match r {
            Some(v) => value_in(t@) == Some(v@),
            None => value_in(t@) is None,
        },
{
    match read_json(t) {
        Ok(Doc::Str(s)) => Some(Value::Command(s)),
        Ok(Doc::Mapping(entries)) => match read_conditional(&entries) {
            Some(c) => Some(Value::Conditional(Box::new(c))),
            None => None,
        },
        Ok(Doc::Sequence(items)) => match read_positional_conditional(&items) {
            Some(c) => Some(Value::Conditional(Box::new(c))),
            None => None,
        },
        _ => None,
    }
}

/// Reads a conditional alias given as the sequence of its ten values.
fn read_positional_conditional(items: &Vec<String>) -> (r: Option<Conditional>)
    ensures
        match r {
            Some(c) => positional_conditional_in(items@.map_values(|t: String| t@)) == Some(c@),
            None => positional_conditional_in(items@.map_values(|t: String| t@)) is None,
        },
{
    let ghost ts = items@.map_values(|t: String| t@);
    if items.len() != 10 {
        return None;
    }
    let cmd = read_string(items[0].as_str());
    let cmd_bash = read_optional_string(items[1].as_str());
    let cmd_fish = read_optional_string(items[2].as_str());
    let cmd_pwsh = read_optional_string(items[3].as_str());
    let cmd_pwsh_conflict = read_optional_string(items[4].as_str());
    let cmd_zsh = read_optional_string(items[5].as_str());
    let shell = read_optional_shells(items[6].as_str());
    let shell_exclude = read_optional_shells(items[7].as_str());
    let platform = read_optional_platforms(items[8].as_str());
    let platform_exclude = read_optional_platforms(items[9].as_str());
    assert(ts[0] == items@[0]@ && ts[1] == items@[1]@ && ts[2] == items@[2]@ && ts[3] == items@[3]@ && ts[4] == items@[4]@);
    assert(ts[5] == items@[5]@ && ts[6] == items@[6]@ && ts[7] == items@[7]@ && ts[8] == items@[8]@ && ts[9] == items@[9]@);
    match (cmd, cmd_bash, cmd_fish, cmd_pwsh, cmd_pwsh_conflict, cmd_zsh, shell, shell_exclude, platform, platform_exclude) {
        (Some(cmd), Some(b), Some(f), Some(p), Some(pc), Some(z), Some(sh), Some(sx), Some(pl), Some(px)) => Some(
            Conditional {
                cmd,
                cmd_bash: b,
                cmd_fish: f,
                cmd_pwsh: p,
                cmd_pwsh_conflict: pc,
                cmd_zsh: z,
                shell: sh,
                shell_exclude: sx,
                platform: pl,
                platform_exclude: px,
            },
        ),
        _ => None,
    }
}

/// The `[name, value]` pair that the JSON text `t` denotes.
pub open spec fn pair_in(t: Seq<char>) -> Option<(Seq<char>, ValueV)> {
    match json_document(t) {
        Ok(DocV::Sequence(two)) => if two.len() == 2 {
            match (string_in(two[0]), value_in(two[1])) {
                (Some(k), Some(v)) => Some((k, v)),
                _ => None,
            }
        } else {
            None
        },
        _ => None,
    }
}

/// The configured pairs of a document: a mapping from names to values, or a
/// sequence of `[name, value]` pairs, in document order.
pub open spec fn pairs_in(d: DocV) -> Option<Pairs> {
    match d {
        DocV::Mapping(es) => if forall|i: int| 0 <= i < es.len() ==> (#[trigger] value_in(es[i].1)) is Some {
            Some(es.map_values(|e: (Seq<char>, Seq<char>)| (e.0, value_in(e.1).unwrap())))
        } else {
            None
        },
        DocV::Sequence(items) => if forall|i: int| 0 <= i < items.len() ==> (#[trigger] pair_in(items[i])) is Some {
            Some(items.map_values(|t: Seq<char>| pair_in(t).unwrap()))
        } else {
            None
        },
        _ => None,
    }
}

/// The error of the first pair of `ps` that has both an include and an
/// exclude filter for shells (checked first) or for platforms.
pub open spec fn filter_conflict(ps: Pairs) -> Option<ConfigErrorV>
    decreases ps.len(),
{
    if ps.len() == 0 {
        None
    } else {
        match ps[0].1 {
            ValueV::Conditional(c) => if c.shell is Some && c.shell_exclude is Some {
                Some(ConfigErrorV::ShellFilters)
            } else if c.platform is Some && c.platform_exclude is Some {
                Some(ConfigErrorV::PlatformFilters)
            } else {
                filter_conflict(ps.drop_first())
            },
            ValueV::Command(_) => filter_conflict(ps.drop_first()),
        }
    }
}

/// The configured pairs of a parse result, or the error.
pub open spec fn decoded(d: Result<DocV, Seq<char>>) -> Result<Pairs, ConfigErrorV> {
    match d {
        Err(m) => Err(ConfigErrorV::Syntax(m)),
        Ok(doc) => match pairs_in(doc) {
            None => Err(ConfigErrorV::Shape),
            Some(ps) => match filter_conflict(ps) {
                Some(e) => Err(e),
                None => Ok(ps),
            },
        },
    }
}

/// The model of a decoding result.
pub open spec fn decoded_view(r: Result<Vec<(String, Value)>, ConfigError>) -> Result<Pairs, ConfigErrorV> {
    match r {
        Ok(v) => Ok(pairs_view(v@)),
        Err(e) => Err(e@),
    }
}

/// Checks that no value has both an include and an exclude filter for the
/// same category.
fn check_filters(pairs: &Vec<(String, Value)>) -> (r: Result<(), ConfigError>)
    ensures
        match r {
            Ok(()) => filter_conflict(pairs_view(pairs@)) is None,
            Err(e) => filter_conflict(pairs_view(pairs@)) == Some(e@),
        },
{
    let ghost ps = pairs_view(pairs@);
    assert(ps.skip(0) =~= ps);
    let mut i: usize = 0;
    while i < pairs.len()
        invariant
            i <= pairs.len(),
            ps == pairs_view(pairs@),
            filter_conflict(ps) == filter_conflict(ps.skip(i as int)),
        decreases pairs.len() - i,
    {
        assert(ps.skip(i as int).drop_first() =~= ps.skip(i + 1));
        assert(ps.skip(i as int)[0] == ps[i as int]);
        match &pairs[i].1 {
            Value::Conditional(c) => {
                if c.shell.is_some() && c.shell_exclude.is_some() {
                    return Err(ConfigError::ShellFilters);
                }
                if c.platform.is_some() && c.platform_exclude.is_some() {
                    return Err(ConfigError::PlatformFilters);
                }
            },
            Value::Command(_) => {},
        }
        i += 1;
    }
    Ok(())
}

/// Decodes the configured pairs of a parsed document: `Syntax` when parsing
/// failed, `Shape` when the document is not a configuration, a filter error
/// for the first alias with both an include and an exclude filter of one
/// category, and the pairs in document order otherwise.
pub fn decode_pairs(doc: Result<Doc, String>) -> (r: Result<Vec<(String, Value)>, ConfigError>)
    ensures
        decoded_view(r) == decoded(parse_result_view(doc)),
{
    let d = match doc {
        Err(m) => return Err(ConfigError::Syntax(m)),
        Ok(d) => d,
    };
    let mut pairs: Vec<(String, Value)> = Vec::new();
    match d {
        Doc::Mapping(entries) => {
            let ghost es = entries@.map_values(|e: (String, String)| (e.0@, e.1@));
            let mut i: usize = 0;
            while i < entries.len()
                invariant
                    i <= entries.len(),
                    es == entries@.map_values(|e: (String, String)| (e.0@, e.1@)),
                    parse_result_view(doc) == Ok::<DocV, Seq<char>>(DocV::Mapping(es)),
                    pairs@.len() == i,
                    forall|j: int| 0 <= j < i ==> (#[trigger] value_in(es[j].1)) == Some(pairs@[j].1@),
                    forall|j: int| 0 <= j < i ==> (#[trigger] pairs@[j]).0@ == es[j].0,
                decreases entries.len() - i,
            {
                match read_value(entries[i].1.as_str()) {
                    Some(v) => {
                        pairs.push((entries[i].0.clone(), v));
                    },
                    None => {
                        assert(value_in(es[i as int].1) is None);
                        return Err(ConfigError::Shape);
                    },
                }
                i += 1;
            }
            assert(pairs_view(pairs@) =~= es.map_values(|e: (Seq<char>, Seq<char>)| (e.0, value_in(e.1).unwrap())));
        },
        Doc::Sequence(items) => {
            let ghost ts = items@.map_values(|t: String| t@);
            let mut i: usize = 0;
            while i < items.len()
                invariant
                    i <= items.len(),
                    ts == items@.map_values(|t: String| t@),
                    parse_result_view(doc) == Ok::<DocV, Seq<char>>(DocV::Sequence(ts)),
                    pairs@.len() == i,
                    forall|j: int| 0 <= j < i ==> (#[trigger] pair_in(ts[j])) == Some((pairs@[j].0@, pairs@[j].1@)),
                decreases items.len() - i,
            {
                let pair = match read_json(items[i].as_str()) {
                    Ok(Doc::Sequence(two)) => {
                        if two.len() != 2 {
                            None
                        } else {
                            match (read_string(two[0].as_str()), read_value(two[1].as_str())) {
                                (Some(k), Some(v)) => Some((k, v)),
                                _ => None,
                            }
                        }
                    },
                    _ => None,
                };
                match pair {
                    Some(p) => {
                        pairs.push(p);
                    },
                    None => {
                        assert(pair_in(ts[i as int]) is None);
                        return Err(ConfigError::Shape);
                    },
                }
                i += 1;
            }
            assert(pairs_view(pairs@) =~= ts.map_values(|t: Seq<char>| pair_in(t).unwrap()));
        },
        _ => {
            return Err(ConfigError::Shape);
        },
    }
    match check_filters(&pairs) {
        Ok(()) => Ok(pairs),
        Err(e) => Err(e),
    }
}

/// The text formats of a configuration.
#[derive(Clone, Copy, Debug, PartialEq, Eq, Structural)]
pub enum Format {
    /// YAML.
    Yaml,
    /// JSON, with `//` and `/* */` comments allowed.
    Jsonc,
}

/// What the parser of `format` makes of `text`.
pub open spec fn document_of(format: Format, text: Seq<char>) -> Result<DocV, Seq<char>> {
    match format {
        Format::Yaml => yaml_document(text),
        Format::Jsonc => json_document(without_comments(text)),
    }
}

/// The configured pairs of the text `text` in format `format`, or the error.
pub open spec fn config_pairs(format: Format, text: Seq<char>) -> Result<Pairs, ConfigErrorV> {
    decoded(document_of(format, text))
}

/// Parses `content` in `format` into its configured pairs, in document order.
pub fn parse_pairs(format: Format, content: &str) -> (r: Result<Vec<(String, Value)>, ConfigError>)
    ensures
        decoded_view(r) == config_pairs(format, content@),
{
    let doc = match format {
        Format::Yaml => read_yaml(content),
        Format::Jsonc => {
            let json = strip_json_comments(content);
            read_json(json.as_str())
        },
    };
    decode_pairs(doc)
}

/// Parses a YAML configuration into its configured pairs, in document order.
pub fn parse_yaml_pairs(content: &str) -> (r: Result<Vec<(String, Value)>, ConfigError>)
    ensures
        decoded_view(r) == config_pairs(Format::Yaml, content@),
{
    parse_pairs(Format::Yaml, content)
}

/// Parses a JSON configuration, comments allowed, into its configured pairs,
/// in document order.
pub fn parse_jsonc_pairs(content: &str) -> (r: Result<Vec<(String, Value)>, ConfigError>)
    ensures
        decoded_view(r) == config_pairs(Format::Jsonc, content@),
{
    parse_pairs(Format::Jsonc, content)
}

/// Whether `s` ends with `suffix`.
pub open spec fn ends_with(s: Seq<char>, suffix: Seq<char>) -> bool {
    s.len() >= suffix.len() && s.subrange(s.len() - suffix.len(), s.len() as int) == suffix
}

/// The format of a configuration file: YAML for names ending in `.yaml` or
/// `.yml`, JSON (comments allowed) otherwise.
pub open spec fn format_of_path(path: Seq<char>) -> Format {
    if ends_with(path, ".yaml"@) || ends_with(path, ".yml"@) {
        Format::Yaml
    } else {
        Format::Jsonc
    }
}

fn has_suffix(s: &str, suffix: &str) -> (r: bool)
    ensures
        r == ends_with(s@, suffix@),
{
    let n = s.unicode_len();
    let k = suffix.unicode_len();
    if n < k {
        return false;
    }
    let tail = s.substring_char(n - k, n).to_owned();
    let wanted = suffix.to_owned();
    tail == wanted
}

/// The format of the configuration file at `path`.
pub fn format_for_path(path: &str) -> (f: Format)
    ensures
        f == format_of_path(path@),
{
    if has_suffix(path, ".yaml") || has_suffix(path, ".yml") {
        Format::Yaml
    } else {
        Format::Jsonc
    }
}

/// The platform that the operating system name `os` (as in
/// `std::env::consts::OS`) stands for.
pub open spec fn platform_of_os(os: Seq<char>) -> Result<Platform, ConfigErrorV> {
    if os == "windows"@ {
        Ok(Platform::Windows)
    } else if os == "linux"@ {
        Ok(Platform::Linux)
    } else if os == "macos"@ {
        Ok(Platform::Macos)
    } else {
        Err(ConfigErrorV::UnknownPlatform(os))
    }
}

/// The platform of the operating system named `os`, or `UnknownPlatform`.
pub fn platform_from_os(os: &str) -> (r: Result<Platform, ConfigError>)
    ensures
        match r {
            Ok(p) => platform_of_os(os@) == Ok::<Platform, ConfigErrorV>(p),
            Err(e) => platform_of_os(os@) == Err::<Platform, ConfigErrorV>(e@),
        },
{
    let name = os.to_owned();
    if is_text(&name, "windows") {
        Ok(Platform::Windows)
    } else if is_text(&name, "linux") {
        Ok(Platform::Linux)
    } else if is_text(&name, "macos") {
        Ok(Platform::Macos)
    } else {
        Err(ConfigError::UnknownPlatform(name))
    }
}

/// Where the configuration file is.
#[derive(Debug)]
pub enum ConfigPath {
    /// The home directory itself.
    Home,
    /// A path below the home directory.
    UnderHome(String),
    /// A path used as given.
    Literal(String),
}

/// The model of a `ConfigPath`.
pub enum ConfigPathV {
    Home,
    UnderHome(Seq<char>),
    Literal(Seq<char>),
}

impl View for ConfigPath {
    type V = ConfigPathV;

    open spec fn view(&self) -> ConfigPathV {
        match self {
            ConfigPath::Home => ConfigPathV::Home,
            ConfigPath::UnderHome(p) => ConfigPathV::UnderHome(p@),
            ConfigPath::Literal(p) => ConfigPathV::Literal(p@),
        }
    }
}

/// Where the configuration is for the optional path argument `path`: by
/// default `.config/shaka/config.json` below the home directory; `~` is the
/// home directory and `~/rest` is `rest` below it; any other path is used as
/// given.
pub open spec fn config_path_of(path: Option<Seq<char>>) -> ConfigPathV {
    match path {
        None => ConfigPathV::UnderHome(".config/shaka/config.json"@),
        Some(p) => if p == seq!['~'] {
            ConfigPathV::Home
        } else if p.len() >= 2 && p[0] == '~' && p[1] == '/' {
            ConfigPathV::UnderHome(p.subrange(2, p.len() as int))
        } else {
            ConfigPathV::Literal(p)
        },
    }
}

/// Where the configuration is for the optional path argument `path`.
pub fn config_path(path: Option<&str>) -> (r: ConfigPath)
    ensures
        r@ == config_path_of(match path {
            Some(p) => Some(p@),
            None => None,
        }),
{
    match path {
        None => ConfigPath::UnderHome(".config/shaka/config.json".to_owned()),
        Some(p) => {
            let n = p.unicode_len();
            if n == 1 && p.get_char(0) == '~' {
                assert(p@ =~= seq!['~']);
                ConfigPath::Home
            } else if n >= 2 && p.get_char(0) == '~' && p.get_char(1) == '/' {
                assert(p@ != seq!['~']);
                ConfigPath::UnderHome(p.substring_char(2, n).to_owned())
            } else {
                ConfigPath::Literal(p.to_owned())
            }
        },
    }
}

/// Whether `v` does not have both an include and an exclude filter of one
/// category.
pub open spec fn filters_consistent(v: ValueV) -> bool {
    match v {
        ValueV::Conditional(c) => !(c.shell is Some && c.shell_exclude is Some) && !(c.platform is Some
            && c.platform_exclude is Some),
        ValueV::Command(_) => true,
    }
}

proof fn lemma_no_conflict(ps: Pairs)
    requires
        filter_conflict(ps) is None,
    ensures
        forall|i: int| 0 <= i < ps.len() ==> filters_consistent(#[trigger] ps[i].1),
    decreases ps.len(),
{
    if ps.len() > 0 {
        lemma_no_conflict(ps.drop_first());
        assert forall|i: int| 0 <= i < ps.len() implies filters_consistent(#[trigger] ps[i].1) by {
            if i > 0 {
                assert(ps[i] == ps.drop_first()[i - 1]);
            }
        }
    }
}

/// Law: in a configuration that reads without error, no alias has both an
/// include and an exclude filter for shells, nor for platforms.
pub proof fn law_read_configs_have_no_conflicting_filters(format: Format, text: Seq<char>)
    requires
        config_pairs(format, text) is Ok,
    ensures
        forall|i: int|
            0 <= i < config_pairs(format, text)->Ok_0.len() ==> filters_consistent(
                #[trigger] config_pairs(format, text)->Ok_0[i].1,
            ),
{
    lemma_no_conflict(config_pairs(format, text)->Ok_0);
}

/// Whether a configuration file that does not exist counts as an empty
/// configuration: only the default one does; a missing file that was asked
/// for is an error.
pub fn tolerates_missing_file(path: Option<&str>) -> (r: bool)
    ensures
        r == (path is None),
{
    path.is_none()
}

/// The message for an error met while loading the configuration file at
/// `path`: parse and shape errors name the file and its format.
pub open spec fn load_error_message(e: ConfigErrorV, path: Seq<char>, format: Format) -> Seq<char> {
    match e {
        ConfigErrorV::Syntax(_) | ConfigErrorV::Shape => "failed parsing "@ + (match format {
            Format::Yaml => "YAML"@,
            Format::Jsonc => "JSON"@,
        }) + " "@ + path + ": "@ + error_message(e),
        _ => error_message(e),
    }
}

/// The message for an error met while loading the configuration file at `path`.
pub fn describe_load_error(e: &ConfigError, path: &str, format: Format) -> (m: String)
    ensures
        m@ == load_error_message(e@, path@, format),
{
    match e {
        ConfigError::Syntax(_) | ConfigError::Shape => {
            let mut m = "failed parsing ".to_owned();
            match format {
                Format::Yaml => m.append("YAML"),
                Format::Jsonc => m.append("JSON"),
            }
            m.append(" ");
            m.append(path);
            m.append(": ");
            let detail = e.message();
            m.append(detail.as_str());
            m
        },
        _ => e.message(),
    }
}

/// A conditional alias with command `c` and nothing else set.
pub open spec fn command_only(c: Seq<char>) -> ConditionalV {
    ConditionalV {
        cmd: c,
        cmd_bash: None,
        cmd_fish: None,
        cmd_pwsh: None,
        cmd_pwsh_conflict: None,
        cmd_zsh: None,
        shell: None,
        shell_exclude: None,
        platform: None,
        platform_exclude: None,
    }
}

/// Reading a mapping of a `cmd` entry and one more entry whose key names
/// field `f`.
proof fn lemma_cmd_and_one_more(tc: Seq<char>, k: Seq<char>, f: Field, ts: Seq<char>)
    requires
        field_named(k) == Some(f),
    ensures
        conditional_in(seq![("cmd"@, tc), (k, ts)]) == match field_step(no_fields(), Field::Cmd, tc) {
            Some(a) => match field_step(a, f, ts) {
                Some(b) => conditional_of(b),
                None => None,
            },
            None => None,
        },
{
    reveal_strlit("cmd");
    let es = seq![("cmd"@, tc), (k, ts)];
    assert(field_named("cmd"@) == Some(Field::Cmd));
    assert(es.drop_first() =~= seq![(k, ts)]);
    assert(es.drop_first().drop_first() =~= Seq::<(Seq<char>, Seq<char>)>::empty());
    reveal_with_fuel(fields_from, 3);
}

/// Law: in a conditional alias, each key `cmd.<shell>` sets that shell's own
/// command: a mapping of a `cmd` string and one `cmd.<shell>` string decodes
/// to the alias with that command and that shell's command, nothing else set.
pub proof fn law_shell_command_keys_name_their_fields(tc: Seq<char>, ts: Seq<char>, c: Seq<char>, x: Seq<char>)
    requires
        string_in(tc) == Some(c),
        string_in(ts) == Some(x),
    ensures
        conditional_in(seq![("cmd"@, tc)]) == Some(command_only(c)),
        conditional_in(seq![("cmd"@, tc), ("cmd.bash"@, ts)]) == (Some(ConditionalV { cmd_bash: Some(x), ..command_only(c) })),
        conditional_in(seq![("cmd"@, tc), ("cmd.fish"@, ts)]) == (Some(ConditionalV { cmd_fish: Some(x), ..command_only(c) })),
        conditional_in(seq![("cmd"@, tc), ("cmd.pwsh"@, ts)]) == (Some(ConditionalV { cmd_pwsh: Some(x), ..command_only(c) })),
        conditional_in(seq![("cmd"@, tc), ("cmd.pwsh-conflict"@, ts)]) == (Some(ConditionalV { cmd_pwsh_conflict: Some(x), ..command_only(c) })),
        conditional_in(seq![("cmd"@, tc), ("cmd.zsh"@, ts)]) == (Some(ConditionalV { cmd_zsh: Some(x), ..command_only(c) })),
{
    reveal_strlit("cmd");
    reveal_strlit("cmd.bash");
    reveal_strlit("cmd.fish");
    reveal_strlit("cmd.pwsh");
    reveal_strlit("cmd.pwsh-conflict");
    reveal_strlit("cmd.zsh");
    assert(!is_null(ts));
    assert("cmd.bash"@.len() != "cmd"@.len());
    assert("cmd.fish"@.len() != "cmd"@.len());
    assert("cmd.fish"@[4] != "cmd.bash"@[4]);
    assert("cmd.pwsh"@.len() != "cmd"@.len());
    assert("cmd.pwsh"@[4] != "cmd.bash"@[4]);
    assert("cmd.pwsh"@[4] != "cmd.fish"@[4]);
    assert("cmd.pwsh-conflict"@.len() != "cmd.pwsh"@.len());
    assert("cmd.pwsh-conflict"@.len() != "cmd.bash"@.len());
    assert("cmd.zsh"@.len() != "cmd.bash"@.len());
    assert("cmd.zsh"@.len() != "cmd"@.len());
    assert(field_named("cmd.bash"@) == Some(Field::CmdBash));
    assert(field_named("cmd.fish"@) == Some(Field::CmdFish));
    assert(field_named("cmd.pwsh"@) == Some(Field::CmdPwsh));
    assert(field_named("cmd.pwsh-conflict"@) == Some(Field::CmdPwshConflict));
    assert(field_named("cmd.zsh"@) == Some(Field::CmdZsh));
    lemma_cmd_and_one_more(tc, "cmd.bash"@, Field::CmdBash, ts);
    lemma_cmd_and_one_more(tc, "cmd.fish"@, Field::CmdFish, ts);
    lemma_cmd_and_one_more(tc, "cmd.pwsh"@, Field::CmdPwsh, ts);
    lemma_cmd_and_one_more(tc, "cmd.pwsh-conflict"@, Field::CmdPwshConflict, ts);
    lemma_cmd_and_one_more(tc, "cmd.zsh"@, Field::CmdZsh, ts);
    let one = seq![("cmd"@, tc)];
    assert(one.drop_first() =~= Seq::<(Seq<char>, Seq<char>)>::empty());
    assert(field_named("cmd"@) == Some(Field::Cmd));
    reveal_with_fuel(fields_from, 2);
}

} // verus!
