//! PowerShell functions: `function NAME { COMMAND @args }`.
use crate::alias_map::{alias_entries, alias_map_get_index, alias_map_len, Entries};
use crate::utils::env_expand::{expand_pwsh_env_vars, expanded, EnvVars, Environment};
use crate::utils::text::{chars_of, same_char_ignoring_ascii_case, same_ignoring_ascii_case};
use indexmap::IndexMap;
use vstd::prelude::*;

verus! {

/// The PowerShell statements that end a function and take at most one
/// argument, so that `@args` cannot be appended to them.
pub const STATEMENT_KEYWORDS: [&'static str; 5] = ["exit", "return", "break", "continue", "throw"];

/// Whether `c` is white space in the sense of `char::is_whitespace`
/// (the Unicode `White_Space` property).
pub open spec fn is_ws(c: char) -> bool {
    ||| ('\u{9}' <= c && c <= '\u{d}')
    ||| c == ' '
    ||| c == '\u{85}'
    ||| c == '\u{a0}'
    ||| c == '\u{1680}'
    ||| ('\u{2000}' <= c && c <= '\u{200a}')
    ||| c == '\u{2028}'
    ||| c == '\u{2029}'
    ||| c == '\u{202f}'
    ||| c == '\u{205f}'
    ||| c == '\u{3000}'
}

/// Whether `c` is white space.
pub fn is_ws_exec(c: char) -> (r: bool)
    ensures
        r == is_ws(c),
{
    ('\u{9}' <= c && c <= '\u{d}') || c == ' ' || c == '\u{85}' || c == '\u{a0}' || c == '\u{1680}'
        || ('\u{2000}' <= c && c <= '\u{200a}') || c == '\u{2028}' || c == '\u{2029}' || c
        == '\u{202f}' || c == '\u{205f}' || c == '\u{3000}'
}

/// Whether `word` equals the lower-case `keyword` up to ASCII case.
pub open spec fn matches_keyword(word: Seq<char>, keyword: Seq<char>) -> bool {
    &&& word.len() == keyword.len()
    &&& forall|i: int| 0 <= i < word.len() ==> same_ignoring_ascii_case(#[trigger] word[i], keyword[i])
}

/// Whether `word` is one of the statement keywords, in any ASCII case.
pub open spec fn is_keyword(word: Seq<char>) -> bool {
    ||| matches_keyword(word, seq!['e', 'x', 'i', 't'])
    ||| matches_keyword(word, seq!['r', 'e', 't', 'u', 'r', 'n'])
    ||| matches_keyword(word, seq!['b', 'r', 'e', 'a', 'k'])
    ||| matches_keyword(word, seq!['c', 'o', 'n', 't', 'i', 'n', 'u', 'e'])
    ||| matches_keyword(word, seq!['t', 'h', 'r', 'o', 'w'])
}

fn matches_keyword_exec(word: &[char], keyword: &[char]) -> (r: bool)
    ensures
        r == matches_keyword(word@, keyword@),
{
    if word.len() != keyword.len() {
        return false;
    }
    let mut i: usize = 0;
    while i < word.len()
        invariant
            i <= word.len(),
            word.len() == keyword.len(),
            forall|j: int| 0 <= j < i ==> same_ignoring_ascii_case(#[trigger] word@[j], keyword@[j]),
        decreases word.len() - i,
    {
        if !same_char_ignoring_ascii_case(word[i], keyword[i]) {
            return false;
        }
        i += 1;
    }
    true
}

/// Whether `word` is a statement keyword, in any ASCII case.
pub fn is_keyword_exec(word: &[char]) -> (r: bool)
    ensures
        r == is_keyword(word@),
{
    let exit = ['e', 'x', 'i', 't'];
    let ret = ['r', 'e', 't', 'u', 'r', 'n'];
    let brk = ['b', 'r', 'e', 'a', 'k'];
    let cont = ['c', 'o', 'n', 't', 'i', 'n', 'u', 'e'];
    let throw = ['t', 'h', 'r', 'o', 'w'];
    assert(exit@ =~= seq!['e', 'x', 'i', 't']);
    assert(ret@ =~= seq!['r', 'e', 't', 'u', 'r', 'n']);
    assert(brk@ =~= seq!['b', 'r', 'e', 'a', 'k']);
    assert(cont@ =~= seq!['c', 'o', 'n', 't', 'i', 'n', 'u', 'e']);
    assert(throw@ =~= seq!['t', 'h', 'r', 'o', 'w']);
    matches_keyword_exec(word, &exit) || matches_keyword_exec(word, &ret) || matches_keyword_exec(
        word,
        &brk,
    ) || matches_keyword_exec(word, &cont) || matches_keyword_exec(word, &throw)
}

/// Whether `c` separates statements, or is white space or `;`.
pub open spec fn is_ws_or_semicolon(c: char) -> bool {
    is_ws(c) || c == ';'
}

/// The end of `s[..e]` once trailing white space and `;` are taken off.
pub open spec fn trimmed_end(s: Seq<char>, e: int) -> int
    decreases e,
{
    if e <= 0 || e > s.len() {
        0
    } else if is_ws_or_semicolon(s[e - 1]) {
        trimmed_end(s, e - 1)
    } else {
        e
    }
}

/// The start of the statement that ends at `e`: just after the last `;` or
/// newline before `e`, or 0.
pub open spec fn statement_start(s: Seq<char>, e: int) -> int
    decreases e,
{
    if e <= 0 || e > s.len() {
        0
    } else if s[e - 1] == ';' || s[e - 1] == '\n' {
        e
    } else {
        statement_start(s, e - 1)
    }
}

/// The first position at or after `i` and before `e` that holds no white
/// space, or `e`.
pub open spec fn skip_ws(s: Seq<char>, i: int, e: int) -> int
    decreases e - i,
{
    if 0 <= i < e && i < s.len() && is_ws(s[i]) {
        skip_ws(s, i + 1, e)
    } else {
        i
    }
}

/// The first position at or after `i` and before `e` that holds white space,
/// or `e`.
pub open spec fn word_end(s: Seq<char>, i: int, e: int) -> int
    decreases e - i,
{
    if 0 <= i < e && i < s.len() && !is_ws(s[i]) {
        word_end(s, i + 1, e)
    } else {
        i
    }
}

/// The end of `s[start..e]` once trailing white space is taken off.
pub open spec fn ws_end(s: Seq<char>, start: int, e: int) -> int
    decreases e,
{
    if e <= start || e <= 0 || e > s.len() {
        e
    } else if is_ws(s[e - 1]) {
        ws_end(s, start, e - 1)
    } else {
        e
    }
}

/// The positions that describe the final statement of a command `s`:
/// `(end, start, word_start, word_end)`. The final statement is the text
/// after the last `;` or newline (all of `s` if there is none), from
/// `start` on, trimmed of white space to `s[word_start..end]`; its first
/// word is `s[word_start..word_end]`. A command that ends in a separator has
/// an empty final statement.
pub open spec fn final_statement(s: Seq<char>) -> (int, int, int, int) {
    let start = statement_start(s, s.len() as int);
    let end = ws_end(s, start, s.len() as int);
    let ws = skip_ws(s, start, end);
    let we = word_end(s, ws, end);
    (end, start, ws, we)
}

/// Whether the final statement of `s` begins with a statement keyword.
pub open spec fn ends_with_statement(s: Seq<char>) -> bool {
    let (end, start, ws, we) = final_statement(s);
    is_keyword(s.subrange(ws, we))
}

/// The PowerShell code that runs the keyword `kw` with at most the first of
/// the function's arguments, warning when more were given.
pub open spec fn forwarding(name: Seq<char>, kw: Seq<char>) -> Seq<char> {
    "if ($args.Count -gt 1) { Write-Warning \""@ + name + ": "@ + kw
        + " expects at most 1 argument; received $($args.Count); using first\" }; if ($args.Count -gt 0) { "@
        + kw + " $args[0] } else { "@ + kw + " }"@
}

/// The body of the function for command `s` (already expanded): `s @args`
/// unless the final statement is a statement keyword; `s` itself when that
/// keyword has arguments; and when it stands alone, the statements before it
/// followed by the keyword applied to the first argument, if any.
pub open spec fn pwsh_body(name: Seq<char>, s: Seq<char>) -> Seq<char> {
    let (end, start, ws, we) = final_statement(s);
    if !ends_with_statement(s) {
        s + " @args"@
    } else if we != end {
        s
    } else {
        let head_end = trimmed_end(s, start);
        let head = if head_end > 0 {
            s.subrange(0, head_end) + "; "@
        } else {
            Seq::empty()
        };
        head + forwarding(name, s.subrange(ws, end))
    }
}

/// The lines emitted for one alias.
pub open spec fn pwsh_entry(vars: EnvVars, conflict_mode: bool, name: Seq<char>, command: Seq<char>) -> Seq<char> {
    let removal = if conflict_mode {
        Seq::empty()
    } else {
        "Remove-Alias -Name "@ + name + " -Force -ErrorAction SilentlyContinue\n"@
    };
    removal + "function "@ + name + " { "@ + pwsh_body(name, expanded(vars, command)) + " }\n"@
}

/// The PowerShell script for the pairs `es`, in order.
pub open spec fn pwsh_script(vars: EnvVars, conflict_mode: bool, es: Entries) -> Seq<char>
    decreases es.len(),
{
    if es.len() == 0 {
        Seq::empty()
    } else {
        pwsh_script(vars, conflict_mode, es.drop_last()) + pwsh_entry(vars, conflict_mode, es.last().0, es.last().1)
    }
}

pub proof fn lemma_trimmed_end(s: Seq<char>, e: int)
    requires
        0 <= e <= s.len(),
    ensures
        0 <= trimmed_end(s, e) <= e,
        trimmed_end(s, e) > 0 ==> !is_ws_or_semicolon(s[trimmed_end(s, e) - 1]),
    decreases e,
{
    if e > 0 && is_ws_or_semicolon(s[e - 1]) {
        lemma_trimmed_end(s, e - 1);
    }
}

pub proof fn lemma_statement_start(s: Seq<char>, e: int)
    requires
        0 <= e <= s.len(),
    ensures
        0 <= statement_start(s, e) <= e,
    decreases e,
{
    if e > 0 && !(s[e - 1] == ';' || s[e - 1] == '\n') {
        lemma_statement_start(s, e - 1);
    }
}

pub proof fn lemma_skip_ws(s: Seq<char>, i: int, e: int)
    requires
        0 <= i <= e <= s.len(),
    ensures
        i <= skip_ws(s, i, e) <= e,
    decreases e - i,
{
    if i < e && is_ws(s[i]) {
        lemma_skip_ws(s, i + 1, e);
    }
}

pub proof fn lemma_word_end(s: Seq<char>, i: int, e: int)
    requires
        0 <= i <= e <= s.len(),
    ensures
        i <= word_end(s, i, e) <= e,
    decreases e - i,
{
    if i < e && !is_ws(s[i]) {
        lemma_word_end(s, i + 1, e);
    }
}

pub proof fn lemma_ws_end(s: Seq<char>, start: int, e: int)
    requires
        0 <= start <= e <= s.len(),
    ensures
        start <= ws_end(s, start, e) <= e,
    decreases e,
{
    if e > start && e > 0 && is_ws(s[e - 1]) {
        lemma_ws_end(s, start, e - 1);
    }
}

/// The bounds of the positions of `final_statement`.
pub proof fn lemma_final_statement(s: Seq<char>)
    ensures
        ({
            let (end, start, ws, we) = final_statement(s);
            0 <= start <= ws <= we <= end <= s.len()
        }),
{
    let start = statement_start(s, s.len() as int);
    lemma_statement_start(s, s.len() as int);
    lemma_ws_end(s, start, s.len() as int);
    let end = ws_end(s, start, s.len() as int);
    lemma_skip_ws(s, start, end);
    let ws = skip_ws(s, start, end);
    lemma_word_end(s, ws, end);
}

/// Positions of the final statement of `cs`, as `final_statement` gives them.
fn locate_final_statement(cs: &[char]) -> (r: (usize, usize, usize, usize))
    ensures
        r.0 as int == final_statement(cs@).0,
        r.1 as int == final_statement(cs@).1,
        r.2 as int == final_statement(cs@).2,
        r.3 as int == final_statement(cs@).3,
{
    let ghost s = cs@;
    proof {
        lemma_final_statement(s);
    }
    let mut start = cs.len();
    while start > 0 && !(cs[start - 1] == ';' || cs[start - 1] == '\n')
        invariant
            start <= cs.len(),
            cs@ == s,
            statement_start(s, start as int) == statement_start(s, s.len() as int),
        decreases start,
    {
        start -= 1;
    }
    let mut end = cs.len();
    while end > start && is_ws_exec(cs[end - 1])
        invariant
            start <= end <= cs.len(),
            cs@ == s,
            start as int == statement_start(s, s.len() as int),
            ws_end(s, start as int, end as int) == ws_end(s, start as int, s.len() as int),
        decreases end,
    {
        end -= 1;
    }
    let mut ws = start;
    while ws < end && is_ws_exec(cs[ws])
        invariant
            start <= ws <= end <= cs.len(),
            cs@ == s,
            start as int == statement_start(s, s.len() as int),
            end as int == ws_end(s, start as int, s.len() as int),
            skip_ws(s, ws as int, end as int) == skip_ws(s, start as int, end as int),
        decreases end - ws,
    {
        ws += 1;
    }
    let mut we = ws;
    while we < end && !is_ws_exec(cs[we])
        invariant
            ws <= we <= end <= cs.len(),
            cs@ == s,
            start as int == statement_start(s, s.len() as int),
            end as int == ws_end(s, start as int, s.len() as int),
            ws as int == skip_ws(s, start as int, end as int),
            word_end(s, we as int, end as int) == word_end(s, ws as int, end as int),
        decreases end - we,
    {
        we += 1;
    }
    (end, start, ws, we)
}

/// Whether the final statement of `command` (the text after its last `;` or
/// newline) begins with a statement keyword (`exit`, `return`, `break`,
/// `continue` or `throw`, in any ASCII case), so that `@args` cannot follow
/// it. A command that ends in a separator has an empty final statement.
pub fn is_statement_command(command: &str) -> (r: bool)
    ensures
        r == ends_with_statement(command@),
{
    let cs = chars_of(command);
    proof {
        lemma_final_statement(command@);
    }
    let (end, start, ws, we) = locate_final_statement(cs.as_slice());
    let word = &cs.as_slice()[ws..we];
    assert(word@ =~= command@.subrange(ws as int, we as int));
    is_keyword_exec(word)
}

/// Appends `cs[from..to]` to `out`.
fn append_chars(out: &mut String, cs: &[char], from: usize, to: usize)
    requires
        from <= to <= cs.len(),
    ensures
        final(out)@ == old(out)@ + cs@.subrange(from as int, to as int),
{
    let mut k = from;
    while k < to
        invariant
            from <= k <= to <= cs.len(),
            out@ == old(out)@ + cs@.subrange(from as int, k as int),
        decreases to - k,
    {
        crate::utils::text::push_char(out, cs[k]);
        k += 1;
        assert(out@ =~= old(out)@ + cs@.subrange(from as int, k as int));
    }
}

/// The function body for the expanded command `command` of alias `name`.
fn function_body(name: &str, command: &str) -> (body: String)
    ensures
        body@ == pwsh_body(name@, command@),
{
    let cs = chars_of(command);
    let ghost s = command@;
    proof {
        lemma_final_statement(s);
    }
    let (end, start, ws, we) = locate_final_statement(cs.as_slice());
    let word = &cs.as_slice()[ws..we];
    assert(word@ =~= s.subrange(ws as int, we as int));
    let mut body = String::new();
    if !is_keyword_exec(word) {
        body.append(command);
        body.append(" @args");
        return body;
    }
    if we != end {
        body.append(command);
        return body;
    }
    let mut head_end = start;
    proof {
        lemma_trimmed_end(s, start as int);
    }
    while head_end > 0 && (is_ws_exec(cs[head_end - 1]) || cs[head_end - 1] == ';')
        invariant
            head_end <= start <= cs.len(),
            cs@ == s,
            trimmed_end(s, head_end as int) == trimmed_end(s, start as int),
        decreases head_end,
    {
        head_end -= 1;
    }
    if head_end > 0 {
        append_chars(&mut body, cs.as_slice(), 0, head_end);
        body.append("; ");
    }
    let ghost head = body@;
    body.append("if ($args.Count -gt 1) { Write-Warning \"");
    body.append(name);
    body.append(": ");
    append_chars(&mut body, cs.as_slice(), ws, end);
    body.append(" expects at most 1 argument; received $($args.Count); using first\" }; if ($args.Count -gt 0) { ");
    append_chars(&mut body, cs.as_slice(), ws, end);
    body.append(" $args[0] } else { ");
    append_chars(&mut body, cs.as_slice(), ws, end);
    body.append(" }");
    assert(body@ =~= head + forwarding(name@, s.subrange(ws as int, end as int)));
    body
}

/// Renders every alias of `entries`, in order, as a PowerShell function whose
/// `$NAME` references are expanded from `env`. Unless `conflict_mode` is set,
/// each function is preceded by the removal of any alias of the same name.
pub fn render(entries: &IndexMap<String, String>, conflict_mode: bool, env: &Environment) -> (out: String)
    ensures
        out@ == pwsh_script(env@, conflict_mode, alias_entries(*entries)),
{
    let ghost es = alias_entries(*entries);
    let n = alias_map_len(entries);
    let mut out = String::new();
    let mut i: usize = 0;
    while i < n
        invariant
            i <= n,
            n == es.len(),
            es == alias_entries(*entries),
            out@ == pwsh_script(env@, conflict_mode, es.take(i as int)),
        decreases n - i,
    {
        let (name, command) = alias_map_get_index(entries, i);
        assert(es.take(i + 1).drop_last() =~= es.take(i as int));
        let expanded_command = expand_pwsh_env_vars(command.as_str(), env);
        if !conflict_mode {
            out.append("Remove-Alias -Name ");
            out.append(name.as_str());
            out.append(" -Force -ErrorAction SilentlyContinue\n");
        }
        out.append("function ");
        out.append(name.as_str());
        out.append(" { ");
        let body = function_body(name.as_str(), expanded_command.as_str());
        out.append(body.as_str());
        out.append(" }\n");
        i += 1;
        assert(out@ =~= pwsh_script(env@, conflict_mode, es.take(i as int)));
    }
    assert(es.take(n as int) =~= es);
    out
}

/// The line that removes any alias named `name`.
pub open spec fn removal_line(name: Seq<char>) -> Seq<char> {
    "Remove-Alias -Name "@ + name + " -Force -ErrorAction SilentlyContinue\n"@
}

/// The conflict-mode functions for `es`, each preceded by its removal line.
pub open spec fn with_alias_removal(vars: EnvVars, es: Entries) -> Seq<char>
    decreases es.len(),
{
    if es.len() == 0 {
        Seq::empty()
    } else {
        with_alias_removal(vars, es.drop_last()) + removal_line(es.last().0) + pwsh_entry(vars, true, es.last().0, es.last().1)
    }
}

} // verus!
