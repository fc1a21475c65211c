//! Rendering the alias map as shell code.
pub mod fish;
pub mod pwsh;
pub mod sh;

use crate::alias_map::{alias_entries, Entries};
use crate::utils::env_expand::{EnvVars, Environment};
use indexmap::IndexMap;
use vstd::prelude::*;

verus! {

/// The shells that aliases can be generated for.
#[derive(Clone, Copy, Debug, PartialEq, Eq, Structural)]
pub enum Shell {
    Bash,
    Fish,
    Pwsh,
    PwshConflict,
    Zsh,
}

/// The script for `shell` that defines the aliases `es`.
pub open spec fn script(shell: Shell, vars: EnvVars, es: Entries) -> Seq<char> {
    match shell {
        Shell::Bash | Shell::Zsh => sh::sh_script(es),
        Shell::Fish => fish::fish_script(es),
        Shell::Pwsh => pwsh::pwsh_script(vars, false, es),
        Shell::PwshConflict => pwsh::pwsh_script(vars, true, es),
    }
}

/// Renders `entries` as shell code for `shell`: `alias` commands for Bash,
/// Zsh and Fish, functions for PowerShell (with `$NAME` references expanded
/// from `env`; in conflict mode existing aliases are left in place).
pub fn render(shell: Shell, entries: &IndexMap<String, String>, env: &Environment) -> (out: String)
    ensures
        out@ == script(shell, env@, alias_entries(*entries)),
{
    match shell {
        Shell::Bash | Shell::Zsh => sh::render(entries),
        Shell::Fish => fish::render(entries),
        Shell::Pwsh => pwsh::render(entries, false, env),
        Shell::PwshConflict => pwsh::render(entries, true, env),
    }
}

/// Law: Bash and Zsh get the same script.
pub proof fn law_bash_and_zsh_agree(vars: EnvVars, es: Entries)
    ensures
        script(Shell::Bash, vars, es) == script(Shell::Zsh, vars, es),
{
}

/// Law: the PowerShell script outside conflict mode is the conflict-mode
/// script with, before each function, the removal of any alias of the same
/// name; nothing else differs.
pub proof fn law_conflict_mode_only_drops_alias_removal(vars: EnvVars, es: Entries)
    ensures
        script(Shell::Pwsh, vars, es) == pwsh::with_alias_removal(vars, es),
        script(Shell::PwshConflict, vars, es) == pwsh::pwsh_script(vars, true, es),
    decreases es.len(),
{
    if es.len() > 0 {
        law_conflict_mode_only_drops_alias_removal(vars, es.drop_last());
        let (n, c) = es.last();
        assert(pwsh::pwsh_entry(vars, false, n, c) =~= pwsh::removal_line(n) + pwsh::pwsh_entry(vars, true, n, c));
    }
}

} // verus!
