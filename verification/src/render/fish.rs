//! Fish aliases: `alias NAME 'COMMAND'`.
use crate::alias_map::{alias_entries, alias_map_get_index, alias_map_len, Entries};
use crate::utils::text::{chars_of, push_char};
use indexmap::IndexMap;
use vstd::prelude::*;

verus! {

/// `s` with every single quote replaced by `'\''`: close the quoted string,
/// emit an escaped quote, reopen the quoted string.
pub open spec fn escaped(s: Seq<char>) -> Seq<char>
    decreases s.len(),
{
    if s.len() == 0 {
        s
    } else if s.last() == '\'' {
        escaped(s.drop_last()) + seq!['\'', '\\', '\'', '\'']
    } else {
        escaped(s.drop_last()).push(s.last())
    }
}

/// Escapes single quotes so that `'` + result + `'` is a single-quoted shell
/// word that denotes `input`.
pub fn escape_single_quotes(input: &str) -> (out: String)
    ensures
        out@ == escaped(input@),
{
    let cs = chars_of(input);
    let mut out = String::new();
    let mut i: usize = 0;
    while i < cs.len()
        invariant
            i <= cs.len(),
            cs@ == input@,
            out@ == escaped(cs@.subrange(0, i as int)),
        decreases cs.len() - i,
    {
        let c = cs[i];
        assert(cs@.subrange(0, i + 1).drop_last() =~= cs@.subrange(0, i as int));
        if c == '\'' {
            push_char(&mut out, '\'');
            push_char(&mut out, '\\');
            push_char(&mut out, '\'');
            push_char(&mut out, '\'');
        } else {
            push_char(&mut out, c);
        }
        i += 1;
        assert(out@ =~= escaped(cs@.subrange(0, i as int)));
    }
    assert(cs@.subrange(0, cs.len() as int) =~= cs@);
    out
}

/// One Fish alias line.
pub open spec fn fish_line(name: Seq<char>, command: Seq<char>) -> Seq<char> {
    "alias "@ + name + " '"@ + escaped(command) + "'\n"@
}

/// The Fish script for the pairs `es`, one line per pair, in order.
pub open spec fn fish_script(es: Entries) -> Seq<char>
    decreases es.len(),
{
    if es.len() == 0 {
        Seq::empty()
    } else {
        fish_script(es.drop_last()) + fish_line(es.last().0, es.last().1)
    }
}

/// Renders every alias of `entries`, in order, as a Fish `alias` command.
pub fn render(entries: &IndexMap<String, String>) -> (out: String)
    ensures
        out@ == fish_script(alias_entries(*entries)),
{
    let ghost es = alias_entries(*entries);
    let n = alias_map_len(entries);
    let mut out = String::new();
    let mut i: usize = 0;
    while i < n
        invariant
            i <= n,
            n == es.len(),
            es == alias_entries(*entries),
            out@ == fish_script(es.take(i as int)),
        decreases n - i,
    {
        let (name, command) = alias_map_get_index(entries, i);
        assert(es.take(i + 1).drop_last() =~= es.take(i as int));
        out.append("alias ");
        out.append(name.as_str());
        out.append(" '");
        let escaped_command = escape_single_quotes(command.as_str());
        out.append(escaped_command.as_str());
        out.append("'\n");
        i += 1;
        assert(out@ =~= fish_script(es.take(i as int)));
    }
    assert(es.take(n as int) =~= es);
    out
}

/// Reading a Fish single-quoted string from position `i` (just after the
/// opening quote): its contents and the position after the closing quote.
/// Inside, `\\` and `\'` stand for a backslash and a quote; any other
/// character stands for itself.
pub open spec fn fish_quoted(w: Seq<char>, i: int) -> Option<(Seq<char>, int)>
    decreases w.len() - i,
{
    if i < 0 || i >= w.len() {
        None
    } else if w[i] == '\'' {
        Some((Seq::empty(), i + 1))
    } else if w[i] == '\\' && i + 1 < w.len() && (w[i + 1] == '\\' || w[i + 1] == '\'') {
        match fish_quoted(w, i + 2) {
            Some((r, j)) => Some((seq![w[i + 1]] + r, j)),
            None => None,
        }
    } else {
        match fish_quoted(w, i + 1) {
            Some((r, j)) => Some((seq![w[i]] + r, j)),
            None => None,
        }
    }
}

pub proof fn lemma_fish_quoted_bounds(w: Seq<char>, i: int)
    requires
        0 <= i,
    ensures
        fish_quoted(w, i) matches Some((r, j)) ==> i < j <= w.len(),
    decreases w.len() - i,
{
    if 0 <= i < w.len() && w[i] != '\'' {
        if w[i] == '\\' && i + 1 < w.len() && (w[i + 1] == '\\' || w[i + 1] == '\'') {
            lemma_fish_quoted_bounds(w, i + 2);
        } else {
            lemma_fish_quoted_bounds(w, i + 1);
        }
    }
}

/// What Fish makes of the word `w` made of single-quoted strings,
/// backslash-escaped characters and plain characters; `None` for an
/// unterminated quote.
pub open spec fn fish_word(w: Seq<char>) -> Option<Seq<char>>
    decreases w.len(),
{
    if w.len() == 0 {
        Some(w)
    } else if w[0] == '\'' {
        proof {
            lemma_fish_quoted_bounds(w, 1);
        }
        match fish_quoted(w, 1) {
            Some((r, j)) => match fish_word(w.subrange(j, w.len() as int)) {
                Some(t) => Some(r + t),
                None => None,
            },
            None => None,
        }
    } else if w[0] == '\\' && w.len() >= 2 {
        match fish_word(w.subrange(2, w.len() as int)) {
            Some(t) => Some(seq![w[1]] + t),
            None => None,
        }
    } else {
        match fish_word(w.drop_first()) {
            Some(t) => Some(seq![w[0]] + t),
            None => None,
        }
    }
}

/// A quoted run without quotes or backslashes reads as itself.
proof fn lemma_fish_quoted_plain(w: Seq<char>, i: int, e: int)
    requires
        1 <= i <= e < w.len(),
        w[e] == '\'',
        forall|k: int| i <= k < e ==> w[k] != '\'' && w[k] != '\\',
    ensures
        fish_quoted(w, i) == Some((w.subrange(i, e), e + 1)),
    decreases e - i,
{
    if i == e {
        assert(w.subrange(i, e) =~= Seq::<char>::empty());
    } else {
        lemma_fish_quoted_plain(w, i + 1, e);
        assert(seq![w[i]] + w.subrange(i + 1, e) =~= w.subrange(i, e));
    }
}

/// A single-quoted chunk without quotes or backslashes reads as its contents.
proof fn lemma_fish_quoted_chunk(a: Seq<char>, rest: Seq<char>)
    requires
        !a.contains('\''),
        !a.contains('\\'),
    ensures
        fish_word(seq!['\''] + a + seq!['\''] + rest) == match fish_word(rest) {
            Some(r) => Some(a + r),
            None => None,
        },
{
    let q: Seq<char> = seq!['\''];
    let w = q + a + q + rest;
    assert forall|k: int| 1 <= k < 1 + a.len() implies w[k] != '\'' && w[k] != '\\' by {
        assert(w[k] == a[k - 1]);
        assert(a.contains(a[k - 1]));
    }
    assert(w[1 + a.len() as int] == '\'');
    lemma_fish_quoted_plain(w, 1, 1 + a.len() as int);
    assert(w.subrange(1, 1 + a.len() as int) =~= a);
    assert(w.subrange(2 + a.len() as int, w.len() as int) =~= rest);
}

/// Law: for a command without backslashes, the single-quoted word that the
/// Fish renderer writes, `'` + escaped command + `'`, is read back by Fish as
/// exactly that command. (A backslash before a backslash or a quote inside
/// Fish single quotes is an escape, so the law does not hold of commands
/// with backslashes.)
pub proof fn law_fish_quoted_word_denotes_command(s: Seq<char>)
    requires
        !s.contains('\\'),
    ensures
        fish_word(seq!['\''] + escaped(s) + seq!['\'']) == Some(s),
    decreases s.len(),
{
    let q: Seq<char> = seq!['\''];
    let empty: Seq<char> = Seq::empty();
    if !s.contains('\'') {
        crate::render::sh::lemma_escaped_plain(s);
        lemma_fish_quoted_chunk(s, empty);
        assert(q + s + q + empty =~= q + escaped(s) + q);
        assert(s + empty =~= s);
    } else {
        let m = choose|m: int| 0 <= m < s.len() && s[m] == '\'';
        crate::render::sh::lemma_first_quote(s, m);
        let i = choose|i: int| 0 <= i < s.len() && s[i] == '\'' && forall|k: int| 0 <= k < i ==> s[k] != '\'';
        let a = s.subrange(0, i);
        let b = s.subrange(i + 1, s.len() as int);
        assert(s =~= a + q + b);
        assert(!a.contains('\'')) by {
            if a.contains('\'') {
                let k = choose|k: int| 0 <= k < a.len() && a[k] == '\'';
                assert(s[k] == '\'');
            }
        }
        assert(!a.contains('\\')) by {
            if a.contains('\\') {
                let k = choose|k: int| 0 <= k < a.len() && a[k] == '\\';
                assert(s[k] == '\\');
                assert(s.contains(s[k]));
            }
        }
        assert(!b.contains('\\')) by {
            if b.contains('\\') {
                let k = choose|k: int| 0 <= k < b.len() && b[k] == '\\';
                assert(s[k + i + 1] == '\\');
                assert(s.contains(s[k + i + 1]));
            }
        }
        crate::render::sh::lemma_escaped_concat(a + q, b);
        crate::render::sh::lemma_escaped_concat(a, q);
        crate::render::sh::lemma_escaped_plain(a);
        assert(escaped(empty) == empty);
        assert(q.drop_last() =~= empty);
        assert(escaped(q) =~= seq!['\'', '\\', '\'', '\'']);
        let rest: Seq<char> = q + escaped(b) + q;
        let tail: Seq<char> = seq!['\\', '\''] + rest;
        assert(q + escaped(s) + q =~= q + a + q + tail);
        lemma_fish_quoted_chunk(a, tail);
        assert(tail.subrange(2, tail.len() as int) =~= rest);
        law_fish_quoted_word_denotes_command(b);
        assert(a + (seq!['\''] + b) =~= s);
    }
}

/// Law: every alias whose command has no backslash, at any position, gets the
/// line `alias NAME ` followed by a word that Fish reads as exactly the
/// alias's command, after the lines of the aliases before it.
pub proof fn law_each_fish_line_denotes_its_command(es: Entries)
    requires
        es.len() > 0,
        !es.last().1.contains('\\'),
    ensures
        exists|w: Seq<char>|
            fish_script(es) == fish_script(es.drop_last()) + "alias "@ + es.last().0 + " "@ + w + "\n"@
                && #[trigger] fish_word(w) == Some(es.last().1),
{
    let name = es.last().0;
    let command = es.last().1;
    let w = seq!['\''] + escaped(command) + seq!['\''];
    law_fish_quoted_word_denotes_command(command);
    reveal_strlit(" '");
    reveal_strlit(" ");
    reveal_strlit("'\n");
    reveal_strlit("\n");
    assert(fish_line(name, command) =~= "alias "@ + name + " "@ + w + "\n"@);
    assert(fish_script(es) == fish_script(es.drop_last()) + ("alias "@ + name + " "@ + w + "\n"@));
    assert(fish_script(es.drop_last()) + ("alias "@ + name + " "@ + w + "\n"@) =~= fish_script(es.drop_last())
        + "alias "@ + name + " "@ + w + "\n"@);
}

} // verus!
