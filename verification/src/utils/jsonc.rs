//! Comments in JSON text (`// ...` to the end of the line, `/* ... */`).
use crate::utils::text::{chars_of, push_char};
use vstd::prelude::*;

verus! {

/// Where a scan of JSON text stands.
#[derive(Clone, Copy, Debug, PartialEq, Eq, Structural)]
pub enum Scan {
    /// Outside any string literal.
    Code,
    /// Inside a string literal.
    Str,
    /// Inside a string literal, just after a backslash.
    Escape,
}

/// The position of the first newline of `s` at or after `j`, or `s.len()`.
pub open spec fn line_end(s: Seq<char>, j: int) -> int
    decreases s.len() - j,
{
    if j < 0 || j >= s.len() {
        s.len() as int
    } else if s[j] == '\n' {
        j
    } else {
        line_end(s, j + 1)
    }
}

/// The position just after the first `*/` of `s` at or after `j`, if any.
pub open spec fn block_end(s: Seq<char>, j: int) -> Option<int>
    decreases s.len() - j,
{
    if j < 0 || j + 1 >= s.len() {
        None
    } else if s[j] == '*' && s[j + 1] == '/' {
        Some(j + 2)
    } else {
        block_end(s, j + 1)
    }
}

pub proof fn lemma_line_end(s: Seq<char>, j: int)
    requires
        0 <= j <= s.len(),
    ensures
        j <= line_end(s, j) <= s.len(),
    decreases s.len() - j,
{
    if j < s.len() && s[j] != '\n' {
        lemma_line_end(s, j + 1);
    }
}

pub proof fn lemma_block_end(s: Seq<char>, j: int)
    requires
        0 <= j,
    ensures
        block_end(s, j) matches Some(k) ==> j + 2 <= k <= s.len(),
    decreases s.len() - j,
{
    if j + 1 < s.len() && !(s[j] == '*' && s[j + 1] == '/') {
        lemma_block_end(s, j + 1);
    }
}

/// `s` from position `i` on, scanned in state `st`, with its comments taken
/// out: a line comment is dropped up to (not including) the end of its line;
/// a block comment becomes one space; an unterminated block comment is kept
/// as written. Text inside string literals is never touched.
pub open spec fn strip_from(s: Seq<char>, i: int, st: Scan) -> Seq<char>
    decreases s.len() - i,
{
    if i < 0 || i >= s.len() {
        Seq::empty()
    } else {
        let c = s[i];
        match st {
            Scan::Code => {
                if c == '"' {
                    seq![c] + strip_from(s, i + 1, Scan::Str)
                } else if c == '/' && i + 1 < s.len() && s[i + 1] == '/' {
                    let j = line_end(s, i + 2);
                    proof {
                        lemma_line_end(s, i + 2);
                    }
                    strip_from(s, j, Scan::Code)
                } else if c == '/' && i + 1 < s.len() && s[i + 1] == '*' {
                    proof {
                        lemma_block_end(s, i + 2);
                    }
                    match block_end(s, i + 2) {
                        Some(j) => seq![' '] + strip_from(s, j, Scan::Code),
                        None => s.subrange(i, s.len() as int),
                    }
                } else {
                    seq![c] + strip_from(s, i + 1, Scan::Code)
                }
            },
            Scan::Str => {
                if c == '\\' {
                    seq![c] + strip_from(s, i + 1, Scan::Escape)
                } else if c == '"' {
                    seq![c] + strip_from(s, i + 1, Scan::Code)
                } else {
                    seq![c] + strip_from(s, i + 1, Scan::Str)
                }
            },
            Scan::Escape => seq![c] + strip_from(s, i + 1, Scan::Str),
        }
    }
}

/// `s` with its comments taken out.
pub open spec fn without_comments(s: Seq<char>) -> Seq<char> {
    strip_from(s, 0, Scan::Code)
}

/// Removes `//` and `/* */` comments from JSON text, leaving string literals
/// alone; each block comment becomes a single space, and an unterminated
/// block comment is kept so that the JSON parser reports it.
pub fn strip_json_comments(text: &str) -> (out: String)
    ensures
        out@ == without_comments(text@),
{
    let cs = chars_of(text);
    let ghost s = text@;
    let n = cs.len();
    let mut out = String::new();
    let mut i: usize = 0;
    let mut st = Scan::Code;
    while i < n
        invariant
            i <= n,
            n == s.len(),
            cs@ == s,
            s == text@,
            out@ + strip_from(s, i as int, st) == without_comments(s),
        decreases n - i,
    {
        let c = cs[i];
        let ghost before = out@;
        match st {
            Scan::Code => {
                if c == '"' {
                    push_char(&mut out, c);
                    st = Scan::Str;
                    i += 1;
                } else if c == '/' && i + 1 < n && cs[i + 1] == '/' {
                    proof {
                        lemma_line_end(s, i + 2);
                    }
                    let mut j = i + 2;
                    while j < n && cs[j] != '\n'
                        invariant
                            i + 2 <= j <= n,
                            n == s.len(),
                            cs@ == s,
                            line_end(s, j as int) == line_end(s, i + 2),
                        decreases n - j,
                    {
                        j += 1;
                    }
                    i = j;
                } else if c == '/' && i + 1 < n && cs[i + 1] == '*' {
                    proof {
                        lemma_block_end(s, i + 2);
                    }
                    let mut j = i + 2;
                    while j < n - 1 && !(cs[j] == '*' && cs[j + 1] == '/')
                        invariant
                            i + 2 <= j <= n,
                            n == s.len(),
                            cs@ == s,
                            block_end(s, j as int) == block_end(s, i + 2),
                        decreases n - j,
                    {
                        j += 1;
                    }
                    if j < n - 1 {
                        push_char(&mut out, ' ');
                        i = j + 2;
                    } else {
                        assert(block_end(s, j as int) is None);
                        assert(strip_from(s, i as int, Scan::Code) == s.subrange(i as int, n as int));
                        let mut k = i;
                        while k < n
                            invariant
                                i <= k <= n,
                                n == s.len(),
                                cs@ == s,
                                out@ == before + s.subrange(i as int, k as int),
                                before + s.subrange(i as int, n as int) == without_comments(s),
                            decreases n - k,
                        {
                            push_char(&mut out, cs[k]);
                            k += 1;
                            assert(out@ =~= before + s.subrange(i as int, k as int));
                        }
                        assert(out@ =~= without_comments(s));
                        return out;
                    }
                } else {
                    push_char(&mut out, c);
                    i += 1;
                }
            },
            Scan::Str => {
                push_char(&mut out, c);
                if c == '\\' {
                    st = Scan::Escape;
                } else if c == '"' {
                    st = Scan::Code;
                }
                i += 1;
            },
            Scan::Escape => {
                push_char(&mut out, c);
                st = Scan::Str;
                i += 1;
            },
        }
        assert(out@ + strip_from(s, i as int, st) =~= without_comments(s));
    }
    assert(out@ =~= without_comments(s));
    out
}

/// Scanning a text without `/` from `i` on, in any state, keeps it as it is.
proof fn lemma_strip_from_plain(s: Seq<char>, i: int, st: Scan)
    requires
        0 <= i <= s.len(),
        !s.contains('/'),
    ensures
        strip_from(s, i, st) == s.subrange(i, s.len() as int),
    decreases s.len() - i,
{
    if i < s.len() {
        assert(s[i] != '/') by {
            if s[i] == '/' {
                assert(s.contains(s[i]));
            }
        }
        lemma_strip_from_plain(s, i + 1, Scan::Code);
        lemma_strip_from_plain(s, i + 1, Scan::Str);
        lemma_strip_from_plain(s, i + 1, Scan::Escape);
        assert(seq![s[i]] + s.subrange(i + 1, s.len() as int) =~= s.subrange(i, s.len() as int));
    } else {
        assert(s.subrange(i, s.len() as int) =~= Seq::<char>::empty());
    }
}

/// Law: JSON text without `/` has no comment and is left as it is, so plain
/// JSON configurations read the same with comments allowed.
pub proof fn law_text_without_slash_is_unchanged(s: Seq<char>)
    requires
        !s.contains('/'),
    ensures
        without_comments(s) == s,
{
    lemma_strip_from_plain(s, 0, Scan::Code);
    assert(s.subrange(0, s.len() as int) =~= s);
}

/// Whether `b` is the text between the quotes of a JSON string literal, as far
/// as where the literal ends is concerned: no unescaped `"`, and each
/// backslash followed by the one character it escapes.
pub open spec fn is_string_body(b: Seq<char>) -> bool
    decreases b.len(),
{
    if b.len() == 0 {
        true
    } else if b[0] == '"' {
        false
    } else if b[0] == '\\' {
        b.len() >= 2 && is_string_body(b.subrange(2, b.len() as int))
    } else {
        is_string_body(b.drop_first())
    }
}

/// Line ends inside the second part of a concatenation are those of the part.
proof fn lemma_line_end_shift(p: Seq<char>, t: Seq<char>, j: int)
    requires
        0 <= j <= t.len(),
    ensures
        line_end(p + t, p.len() + j) == p.len() + line_end(t, j),
    decreases t.len() - j,
{
    if j < t.len() {
        assert((p + t)[p.len() + j] == t[j]);
        if t[j] != '\n' {
            lemma_line_end_shift(p, t, j + 1);
        }
    }
}

/// Block ends inside the second part of a concatenation are those of the part.
proof fn lemma_block_end_shift(p: Seq<char>, t: Seq<char>, j: int)
    requires
        0 <= j <= t.len(),
    ensures
        block_end(p + t, p.len() + j) == match block_end(t, j) {
            Some(k) => Some(p.len() + k),
            None => None,
        },
    decreases t.len() - j,
{
    if j + 1 < t.len() {
        assert((p + t)[p.len() + j] == t[j]);
        assert((p + t)[p.len() + j + 1] == t[j + 1]);
        if !(t[j] == '*' && t[j + 1] == '/') {
            lemma_block_end_shift(p, t, j + 1);
        }
    }
}

/// Scanning the second part of a concatenation is scanning the part.
proof fn lemma_strip_shift(p: Seq<char>, t: Seq<char>, j: int, st: Scan)
    requires
        0 <= j <= t.len(),
    ensures
        strip_from(p + t, p.len() + j, st) == strip_from(t, j, st),
    decreases t.len() - j,
{
    let w = p + t;
    let i = p.len() + j;
    if j < t.len() {
        assert(w[i] == t[j]);
        if j + 1 < t.len() {
            assert(w[i + 1] == t[j + 1]);
        }
        lemma_strip_shift(p, t, j + 1, Scan::Code);
        lemma_strip_shift(p, t, j + 1, Scan::Str);
        lemma_strip_shift(p, t, j + 1, Scan::Escape);
        if st == Scan::Code && t[j] == '/' && j + 1 < t.len() && t[j + 1] == '/' {
            lemma_line_end(t, j + 2);
            lemma_line_end_shift(p, t, j + 2);
            lemma_strip_shift(p, t, line_end(t, j + 2), Scan::Code);
        } else if st == Scan::Code && t[j] == '/' && j + 1 < t.len() && t[j + 1] == '*' {
            lemma_block_end(t, j + 2);
            lemma_block_end_shift(p, t, j + 2);
            match block_end(t, j + 2) {
                Some(k) => {
                    lemma_strip_shift(p, t, k, Scan::Code);
                },
                None => {
                    assert(w.subrange(i, w.len() as int) =~= t.subrange(j, t.len() as int));
                },
            }
        }
    }
}

/// Scanning a string literal from just after its opening quote reaches its
/// closing quote with the literal unchanged, and goes on outside strings.
proof fn lemma_strip_string(w: Seq<char>, i: int, e: int)
    requires
        0 <= i <= e < w.len(),
        w[e] == '"',
        is_string_body(w.subrange(i, e)),
    ensures
        strip_from(w, i, Scan::Str) == w.subrange(i, e + 1) + strip_from(w, e + 1, Scan::Code),
    decreases e - i,
{
    let b = w.subrange(i, e);
    if i == e {
        assert(w.subrange(i, e + 1) =~= seq![w[i]]);
    } else {
        assert(b[0] == w[i]);
        assert(w[i] != '"');
        if w[i] == '\\' {
            assert(b.len() >= 2);
            assert(b.subrange(2, b.len() as int) =~= w.subrange(i + 2, e));
            assert(strip_from(w, i, Scan::Str) == seq![w[i]] + strip_from(w, i + 1, Scan::Escape));
            assert(strip_from(w, i + 1, Scan::Escape) == seq![w[i + 1]] + strip_from(w, i + 2, Scan::Str));
            lemma_strip_string(w, i + 2, e);
            assert(seq![w[i]] + (seq![w[i + 1]] + (w.subrange(i + 2, e + 1) + strip_from(w, e + 1, Scan::Code)))
                =~= w.subrange(i, e + 1) + strip_from(w, e + 1, Scan::Code));
        } else {
            assert(b.drop_first() =~= w.subrange(i + 1, e));
            assert(strip_from(w, i, Scan::Str) == seq![w[i]] + strip_from(w, i + 1, Scan::Str));
            lemma_strip_string(w, i + 1, e);
            assert(seq![w[i]] + (w.subrange(i + 1, e + 1) + strip_from(w, e + 1, Scan::Code)) =~= w.subrange(
                i,
                e + 1,
            ) + strip_from(w, e + 1, Scan::Code));
        }
    }
}

/// Law: a JSON string literal is kept exactly as written, whatever it holds
/// (comment markers, escaped quotes, escaped backslashes), and the text after
/// its closing quote is read outside any string, so a comment there is
/// removed.
pub proof fn law_string_literal_kept_and_closed(b: Seq<char>, t: Seq<char>)
    requires
        is_string_body(b),
    ensures
        without_comments(seq!['"'] + b + seq!['"'] + t) == seq!['"'] + b + seq!['"'] + without_comments(t),
{
    let q: Seq<char> = seq!['"'];
    let lit = q + b + q;
    let w = lit + t;
    assert(w[0] == '"');
    assert(w[b.len() + 1 as int] == '"');
    assert(w.subrange(1, b.len() + 1 as int) =~= b);
    lemma_strip_string(w, 1, b.len() + 1 as int);
    lemma_strip_shift(lit, t, 0, Scan::Code);
    assert(w.subrange(1, b.len() + 2 as int) =~= b + q);
    assert(q + (b + q + strip_from(t, 0, Scan::Code)) =~= lit + strip_from(t, 0, Scan::Code));
}

/// Law: a line comment is removed up to the end of its line, which is kept.
pub proof fn law_line_comment_removed(c: Seq<char>, t: Seq<char>)
    requires
        !c.contains('\n'),
    ensures
        without_comments(seq!['/', '/'] + c + seq!['\n'] + t) == seq!['\n'] + without_comments(t),
{
    let head = seq!['/', '/'] + c;
    let w = head + (seq!['\n'] + t);
    assert(w =~= seq!['/', '/'] + c + seq!['\n'] + t);
    assert(w[0] == '/' && w[1] == '/');
    assert forall|k: int| 2 <= k < head.len() implies w[k] != '\n' by {
        assert(w[k] == c[k - 2]);
        assert(c.contains(c[k - 2]));
    }
    lemma_line_end_to(w, 2, head.len() as int);
    lemma_strip_shift(head, seq!['\n'] + t, 0, Scan::Code);
    let nt = seq!['\n'] + t;
    assert(nt[0] == '\n');
    lemma_strip_shift(seq!['\n'], t, 0, Scan::Code);
}

/// The first newline at or after `j` is at `e` when there is none before it.
proof fn lemma_line_end_to(w: Seq<char>, j: int, e: int)
    requires
        0 <= j <= e < w.len(),
        w[e] == '\n',
        forall|k: int| j <= k < e ==> w[k] != '\n',
    ensures
        line_end(w, j) == e,
    decreases e - j,
{
    if j < e {
        lemma_line_end_to(w, j + 1, e);
    }
}

} // verus!
