//! Bash and Zsh aliases: `alias NAME='COMMAND'`.
use crate::alias_map::{alias_entries, alias_map_get_index, alias_map_len, Entries};
use crate::render::fish::{escape_single_quotes, escaped};
use indexmap::IndexMap;
use vstd::prelude::*;

verus! {

/// One POSIX shell alias line.
pub open spec fn sh_line(name: Seq<char>, command: Seq<char>) -> Seq<char> {
    "alias "@ + name + "='"@ + escaped(command) + "'\n"@
}

/// The Bash/Zsh script for the pairs `es`, one line per pair, in order.
pub open spec fn sh_script(es: Entries) -> Seq<char>
    decreases es.len(),
{
    if es.len() == 0 {
        Seq::empty()
    } else {
        sh_script(es.drop_last()) + sh_line(es.last().0, es.last().1)
    }
}

/// Renders every alias of `entries`, in order, as a Bash/Zsh `alias` command.
pub fn render(entries: &IndexMap<String, String>) -> (out: String)
    ensures
        out@ == sh_script(alias_entries(*entries)),
{
    let ghost es = alias_entries(*entries);
    let n = alias_map_len(entries);
    let mut out = String::new();
    let mut i: usize = 0;
    while i < n
        invariant
            i <= n,
            n == es.len(),
            es == alias_entries(*entries),
            out@ == sh_script(es.take(i as int)),
        decreases n - i,
    {
        let (name, command) = alias_map_get_index(entries, i);
        assert(es.take(i + 1).drop_last() =~= es.take(i as int));
        out.append("alias ");
        out.append(name.as_str());
        out.append("='");
        let escaped_command = escape_single_quotes(command.as_str());
        out.append(escaped_command.as_str());
        out.append("'\n");
        i += 1;
        assert(out@ =~= sh_script(es.take(i as int)));
    }
    assert(es.take(n as int) =~= es);
    out
}

/// The position of the first single quote of `w` at or after `i`, if any.
pub open spec fn quote_close(w: Seq<char>, i: int) -> Option<int>
    decreases w.len() - i,
{
    if i < 0 || i >= w.len() {
        None
    } else if w[i] == '\'' {
        Some(i)
    } else {
        quote_close(w, i + 1)
    }
}

pub proof fn lemma_quote_close_bounds(w: Seq<char>, i: int)
    requires
        0 <= i,
    ensures
        quote_close(w, i) matches Some(j) ==> i <= j < w.len() && w[j] == '\'',
    decreases w.len() - i,
{
    if i < w.len() && w[i] != '\'' {
        lemma_quote_close_bounds(w, i + 1);
    }
}

/// What a POSIX shell makes of the word `w` made of single-quoted strings,
/// backslash-escaped characters and plain characters; `None` for an
/// unterminated quote.
pub open spec fn shell_word(w: Seq<char>) -> Option<Seq<char>>
    decreases w.len(),
{
    if w.len() == 0 {
        Some(w)
    } else if w[0] == '\'' {
        proof {
            lemma_quote_close_bounds(w, 1);
        }
        match quote_close(w, 1) {
            Some(j) => match shell_word(w.subrange(j + 1, w.len() as int)) {
                Some(r) => Some(w.subrange(1, j) + r),
                None => None,
            },
            None => None,
        }
    } else if w[0] == '\\' && w.len() >= 2 {
        match shell_word(w.subrange(2, w.len() as int)) {
            Some(r) => Some(seq![w[1]] + r),
            None => None,
        }
    } else {
        match shell_word(w.drop_first()) {
            Some(r) => Some(seq![w[0]] + r),
            None => None,
        }
    }
}

/// Escaping distributes over concatenation.
pub proof fn lemma_escaped_concat(x: Seq<char>, y: Seq<char>)
    ensures
        escaped(x + y) == escaped(x) + escaped(y),
    decreases y.len(),
{
    if y.len() == 0 {
        assert(x + y =~= x);
        assert(escaped(x) + escaped(y) =~= escaped(x));
    } else {
        assert((x + y).drop_last() =~= x + y.drop_last());
        assert((x + y).last() == y.last());
        lemma_escaped_concat(x, y.drop_last());
        if y.last() == '\'' {
            assert(escaped(x) + (escaped(y.drop_last()) + seq!['\'', '\\', '\'', '\'']) =~= (escaped(x) + escaped(
                y.drop_last(),
            )) + seq!['\'', '\\', '\'', '\'']);
        } else {
            assert(escaped(x) + escaped(y.drop_last()).push(y.last()) =~= (escaped(x) + escaped(y.drop_last())).push(
                y.last(),
            ));
        }
    }
}

/// A string without single quotes is its own escape.
pub proof fn lemma_escaped_plain(a: Seq<char>)
    requires
        !a.contains('\''),
    ensures
        escaped(a) == a,
    decreases a.len(),
{
    if a.len() > 0 {
        assert(!a.drop_last().contains('\'')) by {
            if a.drop_last().contains('\'') {
                let k = choose|k: int| 0 <= k < a.drop_last().len() && a.drop_last()[k] == '\'';
                assert(a[k] == '\'');
            }
        }
        lemma_escaped_plain(a.drop_last());
        assert(a[a.len() - 1] != '\'');
        assert(a.drop_last().push(a.last()) =~= a);
    }
}

/// The first single quote after an opening one closes it.
pub proof fn lemma_quote_close_at(w: Seq<char>, i: int, j: int)
    requires
        0 <= i <= j < w.len(),
        w[j] == '\'',
        forall|k: int| i <= k < j ==> w[k] != '\'',
    ensures
        quote_close(w, i) == Some(j),
    decreases j - i,
{
    if i < j {
        lemma_quote_close_at(w, i + 1, j);
    }
}

/// A single-quoted chunk without quotes inside reads as its contents.
pub proof fn lemma_word_quoted_chunk(a: Seq<char>, rest: Seq<char>)
    requires
        !a.contains('\''),
    ensures
        shell_word(seq!['\''] + a + seq!['\''] + rest) == match shell_word(rest) {
            Some(r) => Some(a + r),
            None => None,
        },
{
    let q: Seq<char> = seq!['\''];
    let w = q + a + q + rest;
    assert forall|k: int| 1 <= k < 1 + a.len() implies w[k] != '\'' by {
        assert(w[k] == a[k - 1]);
        assert(a.contains(a[k - 1]));
    }
    assert(w[1 + a.len() as int] == '\'');
    lemma_quote_close_at(w, 1, 1 + a.len() as int);
    assert(w.subrange(1, 1 + a.len() as int) =~= a);
    assert(w.subrange(2 + a.len() as int, w.len() as int) =~= rest);
}

/// A backslash-escaped character reads as that character.
pub proof fn lemma_word_escaped_char(c: char, rest: Seq<char>)
    ensures
        shell_word(seq!['\\', c] + rest) == match shell_word(rest) {
            Some(r) => Some(seq![c] + r),
            None => None,
        },
{
    let w = seq!['\\', c] + rest;
    assert(w.subrange(2, w.len() as int) =~= rest);
}

/// Law: the single-quoted word that the Bash/Zsh renderer writes for a
/// command, `'` + escaped command + `'`, is read back by a POSIX shell as
/// exactly that command.
pub proof fn law_single_quoted_word_denotes_command(s: Seq<char>)
    ensures
        shell_word(seq!['\''] + escaped(s) + seq!['\'']) == Some(s),
    decreases s.len(),
{
    let q: Seq<char> = seq!['\''];
    let empty: Seq<char> = Seq::empty();
    if !s.contains('\'') {
        lemma_escaped_plain(s);
        lemma_word_quoted_chunk(s, empty);
        assert(q + s + q + empty =~= q + escaped(s) + q);
        assert(s + empty =~= s);
    } else {
        let m = choose|m: int| 0 <= m < s.len() && s[m] == '\'';
        lemma_first_quote(s, m);
        let i = choose|i: int| 0 <= i < s.len() && s[i] == '\'' && forall|k: int| 0 <= k < i ==> s[k] != '\'';
        let a = s.subrange(0, i);
        let b = s.subrange(i + 1, s.len() as int);
        assert(s =~= a + q + b);
        assert(!a.contains('\'')) by {
            if a.contains('\'') {
                let k = choose|k: int| 0 <= k < a.len() && a[k] == '\'';
                assert(s[k] == '\'');
            }
        }
        lemma_escaped_concat(a + q, b);
        lemma_escaped_concat(a, q);
        lemma_escaped_plain(a);
        assert(escaped(empty) == empty);
        assert(q.drop_last() =~= empty);
        assert(escaped(q) =~= seq!['\'', '\\', '\'', '\'']);
        let rest: Seq<char> = q + escaped(b) + q;
        let tail: Seq<char> = seq!['\\', '\''] + rest;
        assert(q + escaped(s) + q =~= q + a + q + tail);
        lemma_word_quoted_chunk(a, tail);
        lemma_word_escaped_char('\'', rest);
        law_single_quoted_word_denotes_command(b);
        assert(a + (seq!['\''] + b) =~= s);
    }
}

/// A quote of `s` with no quote before it exists once some quote does.
pub proof fn lemma_first_quote(s: Seq<char>, m: int)
    requires
        0 <= m < s.len(),
        s[m] == '\'',
    ensures
        exists|i: int| 0 <= i < s.len() && s[i] == '\'' && forall|k: int| 0 <= k < i ==> s[k] != '\'',
    decreases m,
{
    if exists|k: int| 0 <= k < m && s[k] == '\'' {
        let k = choose|k: int| 0 <= k < m && s[k] == '\'';
        lemma_first_quote(s, k);
    } else {
        assert(forall|k: int| 0 <= k < m ==> s[k] != '\'');
    }
}

/// Law: every alias, at any position, gets the line `alias NAME=` followed by
/// a word that a POSIX shell reads as exactly the alias's command, after the
/// lines of the aliases before it.
pub proof fn law_each_sh_line_denotes_its_command(es: Entries)
    requires
        es.len() > 0,
    ensures
        exists|w: Seq<char>|
            sh_script(es) == sh_script(es.drop_last()) + "alias "@ + es.last().0 + "="@ + w + "\n"@
                && #[trigger] shell_word(w) == Some(es.last().1),
{
    let name = es.last().0;
    let command = es.last().1;
    let w = seq!['\''] + escaped(command) + seq!['\''];
    law_single_quoted_word_denotes_command(command);
    reveal_strlit("='");
    reveal_strlit("=");
    reveal_strlit("'\n");
    reveal_strlit("\n");
    assert(sh_line(name, command) =~= "alias "@ + name + "="@ + w + "\n"@);
    assert(sh_script(es) == sh_script(es.drop_last()) + ("alias "@ + name + "="@ + w + "\n"@));
    assert(sh_script(es.drop_last()) + ("alias "@ + name + "="@ + w + "\n"@) =~= sh_script(es.drop_last())
        + "alias "@ + name + "="@ + w + "\n"@);
}

} // verus!
