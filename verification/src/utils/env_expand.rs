//! Expansion of `$NAME` environment references in PowerShell commands.
use crate::utils::text::{chars_of, push_char, same_char_ignoring_ascii_case, same_ignoring_ascii_case};
use vstd::prelude::*;

verus! {

/// A snapshot of environment variables: `(name, value)` pairs, and whether
/// names are looked up without regard to ASCII case, as on Windows.
pub struct Environment {
    pub vars: Vec<(String, String)>,
    pub ignore_case: bool,
}

/// The model of an environment snapshot.
pub struct EnvVars {
    /// The `(name, value)` pairs, in order.
    pub vars: Seq<(Seq<char>, Seq<char>)>,
    /// Whether names are compared up to ASCII case.
    pub ignore_case: bool,
}

impl View for Environment {
    type V = EnvVars;

    open spec fn view(&self) -> EnvVars {
        EnvVars {
            vars: self.vars@.map_values(|p: (String, String)| (p.0@, p.1@)),
            ignore_case: self.ignore_case,
        }
    }
}

/// Whether the variable name `a` denotes the variable named `b`: the same
/// characters, up to ASCII case where `ignore_case` holds.
pub open spec fn same_name(ignore_case: bool, a: Seq<char>, b: Seq<char>) -> bool {
    if ignore_case {
        &&& a.len() == b.len()
        &&& forall|i: int| 0 <= i < a.len() ==> same_ignoring_ascii_case(#[trigger] a[i], b[i])
    } else {
        a == b
    }
}

/// The value of the first of the pairs `vars` whose name denotes `name`.
pub open spec fn lookup_in(vars: Seq<(Seq<char>, Seq<char>)>, ignore_case: bool, name: Seq<char>) -> Option<Seq<char>>
    decreases vars.len(),
{
    if vars.len() == 0 {
        None
    } else if same_name(ignore_case, vars[0].0, name) {
        Some(vars[0].1)
    } else {
        lookup_in(vars.drop_first(), ignore_case, name)
    }
}

/// The value of variable `name`: that of the first pair whose name denotes
/// `name`.
pub open spec fn env_lookup(env: EnvVars, name: Seq<char>) -> Option<Seq<char>> {
    lookup_in(env.vars, env.ignore_case, name)
}

/// The name `HOME`.
pub open spec fn home_name() -> Seq<char> {
    seq!['H', 'O', 'M', 'E']
}

/// The name `USERPROFILE`, where Windows keeps the home directory.
pub open spec fn profile_name() -> Seq<char> {
    seq!['U', 'S', 'E', 'R', 'P', 'R', 'O', 'F', 'I', 'L', 'E']
}

/// The value that the reference `$name` stands for: the variable's own value;
/// for `HOME` (in any ASCII case where names ignore case) when it is unset,
/// the value of `USERPROFILE`.
pub open spec fn reference_value(vars: EnvVars, name: Seq<char>) -> Option<Seq<char>> {
    match env_lookup(vars, name) {
        Some(v) => Some(v),
        None => if same_name(vars.ignore_case, name, home_name()) {
            env_lookup(vars, profile_name())
        } else {
            None
        },
    }
}

/// Whether two character sequences are equal.
pub fn chars_equal(a: &[char], b: &[char]) -> (r: bool)
    ensures
        r == (a@ == b@),
{
    if a.len() != b.len() {
        return false;
    }
    let mut i: usize = 0;
    while i < a.len()
        invariant
            i <= a.len(),
            a.len() == b.len(),
            forall|j: int| 0 <= j < i ==> a@[j] == b@[j],
        decreases a.len() - i,
    {
        if a[i] != b[i] {
            return false;
        }
        i += 1;
    }
    assert(a@ =~= b@);
    true
}

/// Whether the variable name `a` denotes the variable named `b`.
pub fn names_match(ignore_case: bool, a: &[char], b: &[char]) -> (r: bool)
    ensures
        r == same_name(ignore_case, a@, b@),
{
    if !ignore_case {
        return chars_equal(a, b);
    }
    if a.len() != b.len() {
        return false;
    }
    let mut i: usize = 0;
    while i < a.len()
        invariant
            i <= a.len(),
            a.len() == b.len(),
            forall|j: int| 0 <= j < i ==> same_ignoring_ascii_case(#[trigger] a@[j], b@[j]),
        decreases a.len() - i,
    {
        if !same_char_ignoring_ascii_case(a[i], b[i]) {
            return false;
        }
        i += 1;
    }
    true
}

impl Environment {
    /// The environment made of `vars`, in that order, whose names are
    /// compared exactly.
    pub fn new(vars: Vec<(String, String)>) -> (env: Environment)
        ensures
            env@.vars == vars@.map_values(|p: (String, String)| (p.0@, p.1@)),
            !env@.ignore_case,
    {
        Environment { vars, ignore_case: false }
    }

    /// The environment made of `vars`, in that order, whose names are
    /// compared up to ASCII case when `ignore_case` holds.
    pub fn with_case_rule(vars: Vec<(String, String)>, ignore_case: bool) -> (env: Environment)
        ensures
            env@.vars == vars@.map_values(|p: (String, String)| (p.0@, p.1@)),
            env@.ignore_case == ignore_case,
    {
        Environment { vars, ignore_case }
    }

    /// An environment with no variables.
    pub fn empty() -> (env: Environment)
        ensures
            env@.vars == Seq::<(Seq<char>, Seq<char>)>::empty(),
            !env@.ignore_case,
    {
        let env = Environment { vars: Vec::new(), ignore_case: false };
        assert(env@.vars =~= Seq::<(Seq<char>, Seq<char>)>::empty());
        env
    }

    /// The value of the variable that `name` denotes, if it is set.
    pub fn lookup(&self, name: &[char]) -> (r: Option<&String>)
        ensures
            match r {
                Some(v) => env_lookup(self@, name@) == Some(v@),
                None => env_lookup(self@, name@) is None,
            },
    {
        let ghost vars = self@.vars;
        let mut i: usize = 0;
        assert(vars.skip(0) =~= vars);
        while i < self.vars.len()
            invariant
                i <= self.vars.len(),
                vars == self@.vars,
                env_lookup(self@, name@) == lookup_in(vars.skip(i as int), self.ignore_case, name@),
            decreases self.vars.len() - i,
        {
            let key = chars_of(self.vars[i].0.as_str());
            assert(vars.skip(i as int).drop_first() =~= vars.skip(i + 1));
            if names_match(self.ignore_case, key.as_slice(), name) {
                return Some(&self.vars[i].1);
            }
            i += 1;
        }
        None
    }

    /// The value that the reference `$name` stands for, if any: the
    /// variable's own value, or for `HOME` when it is unset, that of
    /// `USERPROFILE`.
    pub fn reference(&self, name: &[char]) -> (r: Option<&String>)
        ensures
            match r {
                Some(v) => reference_value(self@, name@) == Some(v@),
                None => reference_value(self@, name@) is None,
            },
    {
        match self.lookup(name) {
            Some(v) => Some(v),
            None => {
                let home = ['H', 'O', 'M', 'E'];
                assert(home@ =~= home_name());
                if names_match(self.ignore_case, name, &home) {
                    let profile = ['U', 'S', 'E', 'R', 'P', 'R', 'O', 'F', 'I', 'L', 'E'];
                    assert(profile@ =~= profile_name());
                    self.lookup(&profile)
                } else {
                    None
                }
            },
        }
    }
}

/// Whether `c` can be part of a variable name: an ASCII letter, digit or `_`.
pub open spec fn is_name_char(c: char) -> bool {
    ('a' <= c && c <= 'z') || ('A' <= c && c <= 'Z') || ('0' <= c && c <= '9') || c == '_'
}

/// The end of the longest run of name characters of `s` starting at `j`.
pub open spec fn name_end(s: Seq<char>, j: int) -> int
    decreases s.len() - j,
{
    if 0 <= j < s.len() && is_name_char(s[j]) {
        name_end(s, j + 1)
    } else {
        j
    }
}

/// `v` with every backslash turned into a forward slash.
pub open spec fn forward_slashes(v: Seq<char>) -> Seq<char> {
    v.map_values(|c: char| if c == '\\' { '/' } else { c })
}

/// The expansion of `s` from position `i` on: each `$` followed by a non-empty
/// run of name characters is replaced by the value it stands for (see
/// `reference_value`; backslashes turned into slashes) when there is one, and
/// kept as written when there is not; every other character is kept.
pub open spec fn expand_from(vars: EnvVars, s: Seq<char>, i: int) -> Seq<char>
    decreases s.len() - i,
{
    if i < 0 || i >= s.len() {
        Seq::empty()
    } else if s[i] != '$' {
        seq![s[i]] + expand_from(vars, s, i + 1)
    } else {
        let end = name_end(s, i + 1);
        proof {
            lemma_name_end_bounds(s, i + 1);
        }
        if end <= i + 1 {
            seq!['$'] + expand_from(vars, s, i + 1)
        } else {
            let name = s.subrange(i + 1, end);
            let replacement = match reference_value(vars, name) {
                Some(v) => forward_slashes(v),
                None => s.subrange(i, end),
            };
            replacement + expand_from(vars, s, end)
        }
    }
}

/// The expansion of the whole of `s`.
pub open spec fn expanded(vars: EnvVars, s: Seq<char>) -> Seq<char> {
    expand_from(vars, s, 0)
}

pub proof fn lemma_name_end_bounds(s: Seq<char>, j: int)
    requires
        0 <= j <= s.len(),
    ensures
        j <= name_end(s, j) <= s.len(),
        forall|k: int| j <= k < name_end(s, j) ==> is_name_char(#[trigger] s[k]),
        name_end(s, j) < s.len() ==> !is_name_char(s[name_end(s, j)]),
    decreases s.len() - j,
{
    if j < s.len() && is_name_char(s[j]) {
        lemma_name_end_bounds(s, j + 1);
    }
}

/// Replaces each `$NAME` reference (ASCII letters, digits and `_`) whose
/// variable is set in `env` by its value with backslashes turned into forward
/// slashes (`$HOME` falls back to `USERPROFILE`); unset references and `$`
/// signs not followed by a name character are kept as written.
pub fn expand_pwsh_env_vars(input: &str, env: &Environment) -> (out: String)
    ensures
        out@ == expanded(env@, input@),
{
    let cs = chars_of(input);
    let ghost s = input@;
    let n = cs.len();
    let mut out = String::new();
    let mut i: usize = 0;
    while i < n
        invariant
            i <= n,
            n == s.len(),
            cs@ == s,
            out@ + expand_from(env@, s, i as int) == expanded(env@, s),
        decreases n - i,
    {
        if cs[i] != '$' {
            push_char(&mut out, cs[i]);
            proof {
                assert(expand_from(env@, s, i as int) == seq![s[i as int]] + expand_from(env@, s, i + 1));
            }
            i += 1;
            assert(out@ + expand_from(env@, s, i as int) =~= expanded(env@, s));
            continue;
        }
        let start = i + 1;
        let mut end = start;
        proof { lemma_name_end_bounds(s, start as int); }
        while end < n && (is_name_char_exec(cs[end]))
            invariant
                start <= end <= n,
                n == s.len(),
                cs@ == s,
                name_end(s, start as int) == name_end(s, end as int),
            decreases n - end,
        {
            end += 1;
        }
        assert(name_end(s, end as int) == end);
        if start == end {
            push_char(&mut out, '$');
            i += 1;
            assert(out@ + expand_from(env@, s, i as int) =~= expanded(env@, s));
            continue;
        }
        let ghost before = out@;
        let name = &cs.as_slice()[start..end];
        assert(name@ =~= s.subrange(start as int, end as int));
        match env.reference(name) {
            Some(value) => {
                let vcs = chars_of(value.as_str());
                let mut k: usize = 0;
                while k < vcs.len()
                    invariant
                        k <= vcs.len(),
                        out@ == before + forward_slashes(vcs@.subrange(0, k as int)),
                    decreases vcs.len() - k,
                {
                    let c = vcs[k];
                    if c == '\\' {
                        push_char(&mut out, '/');
                    } else {
                        push_char(&mut out, c);
                    }
                    k += 1;
                    assert(out@ =~= before + forward_slashes(vcs@.subrange(0, k as int)));
                }
                assert(vcs@.subrange(0, vcs.len() as int) =~= vcs@);
            },
            None => {
                let mut k: usize = i;
                while k < end
                    invariant
                        i <= k <= end,
                        end <= n,
                        n == s.len(),
                        cs@ == s,
                        out@ == before + s.subrange(i as int, k as int),
                    decreases end - k,
                {
                    push_char(&mut out, cs[k]);
                    k += 1;
                    assert(out@ =~= before + s.subrange(i as int, k as int));
                }
            },
        }
        i = end;
        assert(out@ + expand_from(env@, s, i as int) =~= expanded(env@, s));
    }
    assert(expand_from(env@, s, n as int) =~= Seq::<char>::empty());
    assert(out@ =~= expanded(env@, s));
    out
}

/// Whether `c` can be part of a variable name.
pub fn is_name_char_exec(c: char) -> (r: bool)
    ensures
        r == is_name_char(c),
{
    ('a' <= c && c <= 'z') || ('A' <= c && c <= 'Z') || ('0' <= c && c <= '9') || c == '_'
}

/// The expansion from `i` on of a text without `$` is the text itself.
proof fn lemma_expand_from_plain(vars: EnvVars, s: Seq<char>, i: int)
    requires
        0 <= i <= s.len(),
        !s.contains('$'),
    ensures
        expand_from(vars, s, i) == s.subrange(i, s.len() as int),
    decreases s.len() - i,
{
    if i < s.len() {
        assert(s[i] != '$') by {
            if s[i] == '$' {
                assert(s.contains(s[i]));
            }
        }
        lemma_expand_from_plain(vars, s, i + 1);
        assert(seq![s[i]] + s.subrange(i + 1, s.len() as int) =~= s.subrange(i, s.len() as int));
    } else {
        assert(s.subrange(i, s.len() as int) =~= Seq::<char>::empty());
    }
}

/// Law: a command without `$` is left as it is, whatever the environment.
pub proof fn law_expansion_keeps_text_without_references(vars: EnvVars, s: Seq<char>)
    requires
        !s.contains('$'),
    ensures
        expanded(vars, s) == s,
{
    lemma_expand_from_plain(vars, s, 0);
    assert(s.subrange(0, s.len() as int) =~= s);
}

/// The expansion from `i` on against an environment with no variables is
/// the text itself.
proof fn lemma_expand_from_unset(vars: EnvVars, s: Seq<char>, i: int)
    requires
        vars.vars.len() == 0,
        0 <= i <= s.len(),
    ensures
        expand_from(vars, s, i) == s.subrange(i, s.len() as int),
    decreases s.len() - i,
{
    if i < s.len() {
        if s[i] != '$' {
            lemma_expand_from_unset(vars, s, i + 1);
            assert(seq![s[i]] + s.subrange(i + 1, s.len() as int) =~= s.subrange(i, s.len() as int));
        } else {
            lemma_name_end_bounds(s, i + 1);
            let end = name_end(s, i + 1);
            if end <= i + 1 {
                lemma_expand_from_unset(vars, s, i + 1);
                assert(seq!['$'] + s.subrange(i + 1, s.len() as int) =~= s.subrange(i, s.len() as int));
            } else {
                lemma_expand_from_unset(vars, s, end);
                assert(s.subrange(i, end) + s.subrange(end, s.len() as int) =~= s.subrange(i, s.len() as int));
            }
        }
    } else {
        assert(s.subrange(i, s.len() as int) =~= Seq::<char>::empty());
    }
}

/// Law: references to variables that are not set are kept as written, so
/// with no variable set a command is left as it is.
pub proof fn law_unset_references_are_kept(vars: EnvVars, s: Seq<char>)
    requires
        vars.vars.len() == 0,
    ensures
        expanded(vars, s) == s,
{
    lemma_expand_from_unset(vars, s, 0);
    assert(s.subrange(0, s.len() as int) =~= s);
}

/// Name runs inside the second part of a concatenation are those of the part.
proof fn lemma_name_end_shift(s: Seq<char>, t: Seq<char>, j: int)
    requires
        0 <= j <= t.len(),
    ensures
        name_end(s + t, s.len() + j) == s.len() + name_end(t, j),
    decreases t.len() - j,
{
    if j < t.len() {
        assert((s + t)[s.len() + j] == t[j]);
        if is_name_char(t[j]) {
            lemma_name_end_shift(s, t, j + 1);
        }
    }
}

/// The expansion of the second part of a concatenation is that of the part.
proof fn lemma_expand_shift(vars: EnvVars, s: Seq<char>, t: Seq<char>, j: int)
    requires
        0 <= j <= t.len(),
    ensures
        expand_from(vars, s + t, s.len() + j) == expand_from(vars, t, j),
    decreases t.len() - j,
{
    let st = s + t;
    let k = s.len() + j;
    if j < t.len() {
        assert(st[k] == t[j]);
        if t[j] != '$' {
            lemma_expand_shift(vars, s, t, j + 1);
        } else {
            lemma_name_end_shift(s, t, j + 1);
            lemma_name_end_bounds(t, j + 1);
            let end = name_end(t, j + 1);
            if end <= j + 1 {
                lemma_expand_shift(vars, s, t, j + 1);
            } else {
                assert(st.subrange(k + 1, s.len() + end) =~= t.subrange(j + 1, end));
                assert(st.subrange(k, s.len() + end) =~= t.subrange(j, end));
                lemma_expand_shift(vars, s, t, end);
            }
        }
    }
}

/// A name run that starts in the first part stays in it when the second
/// part does not begin with a name character.
proof fn lemma_name_end_prefix(s: Seq<char>, t: Seq<char>, j: int)
    requires
        0 <= j <= s.len(),
        t.len() == 0 || !is_name_char(t[0]),
    ensures
        name_end(s + t, j) == name_end(s, j),
    decreases s.len() - j,
{
    if j < s.len() {
        assert((s + t)[j] == s[j]);
        if is_name_char(s[j]) {
            lemma_name_end_prefix(s, t, j + 1);
        }
    } else if t.len() > 0 {
        assert((s + t)[j] == t[0]);
    }
}

proof fn lemma_expand_prefix(vars: EnvVars, s: Seq<char>, t: Seq<char>, i: int)
    requires
        0 <= i <= s.len(),
        t.len() == 0 || !is_name_char(t[0]),
    ensures
        expand_from(vars, s + t, i) == expand_from(vars, s, i) + expand_from(vars, t, 0),
    decreases s.len() - i,
{
    let st = s + t;
    if i == s.len() {
        lemma_expand_shift(vars, s, t, 0);
        assert(expand_from(vars, s, i) =~= Seq::<char>::empty());
        assert(expand_from(vars, s, i) + expand_from(vars, t, 0) =~= expand_from(vars, t, 0));
    } else {
        assert(st[i] == s[i]);
        if s[i] != '$' {
            lemma_expand_prefix(vars, s, t, i + 1);
            assert(seq![s[i]] + (expand_from(vars, s, i + 1) + expand_from(vars, t, 0)) =~= (seq![s[i]]
                + expand_from(vars, s, i + 1)) + expand_from(vars, t, 0));
        } else {
            lemma_name_end_prefix(s, t, i + 1);
            lemma_name_end_bounds(s, i + 1);
            let end = name_end(s, i + 1);
            if end <= i + 1 {
                lemma_expand_prefix(vars, s, t, i + 1);
                assert(seq!['$'] + (expand_from(vars, s, i + 1) + expand_from(vars, t, 0)) =~= (seq!['$']
                    + expand_from(vars, s, i + 1)) + expand_from(vars, t, 0));
            } else {
                assert(st.subrange(i + 1, end) =~= s.subrange(i + 1, end));
                assert(st.subrange(i, end) =~= s.subrange(i, end));
                lemma_expand_prefix(vars, s, t, end);
                let replacement = match reference_value(vars, s.subrange(i + 1, end)) {
                    Some(v) => forward_slashes(v),
                    None => s.subrange(i, end),
                };
                assert(replacement + (expand_from(vars, s, end) + expand_from(vars, t, 0)) =~= (replacement
                    + expand_from(vars, s, end)) + expand_from(vars, t, 0));
            }
        }
    }
}

/// Law: expanding a concatenation is concatenating the expansions, as long
/// as the second part does not begin with a name character (which would
/// extend a reference at the end of the first part).
pub proof fn law_expansion_of_concatenation(vars: EnvVars, s: Seq<char>, t: Seq<char>)
    requires
        t.len() == 0 || !is_name_char(t[0]),
    ensures
        expanded(vars, s + t) == expanded(vars, s) + expanded(vars, t),
{
    lemma_expand_prefix(vars, s, t, 0);
}

} // verus!
