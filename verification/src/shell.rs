//! Quoting values for POSIX shells.

use vstd::prelude::*;
use crate::text::{chars_of, push_replacing, replace_char};

verus! {

/// A value in single quotes, each `'` inside written as `'\''`.
pub open spec fn shell_quote_spec(s: Seq<char>) -> Seq<char> {
    seq!['\''] + replace_char(s, '\'', seq!['\'', '\\', '\'', '\'']) + seq!['\'']
}

/// Shell single-quotes a string: an inner `'` becomes `'\''`.
pub fn shell_quote(s: &str) -> (r: String)
    ensures
        r@ == shell_quote_spec(s@),
{
    let v = chars_of(s);
    let mut r = String::new();
    r.push('\'');
    let mut rep_s = String::new();
    rep_s.push('\'');
    rep_s.push('\\');
    rep_s.push('\'');
    rep_s.push('\'');
    assert(rep_s@ =~= seq!['\'', '\\', '\'', '\'']);
    push_replacing(&mut r, &v, '\'', rep_s.as_str());
    r.push('\'');
    assert(r@ =~= shell_quote_spec(s@));
    r
}

/// How a POSIX shell reads the characters of one word, from outside quotes: `'` opens a
/// single-quoted run, `\` takes the next character as it is, anything else stands for itself.
pub open spec fn shell_read(w: Seq<char>) -> Seq<char>
    decreases w.len(), 1int,
{
    if w.len() == 0 {
        Seq::<char>::empty()
    } else if w[0] == '\'' {
        shell_read_quoted(w.drop_first())
    } else if w[0] == '\\' && w.len() >= 2 {
        seq![w[1]] + shell_read(w.skip(2))
    } else {
        seq![w[0]] + shell_read(w.drop_first())
    }
}

/// How a shell reads inside single quotes: everything stands for itself up to the next `'`.
pub open spec fn shell_read_quoted(w: Seq<char>) -> Seq<char>
    decreases w.len(), 0int,
{
    if w.len() == 0 {
        Seq::<char>::empty()
    } else if w[0] == '\'' {
        shell_read(w.drop_first())
    } else {
        seq![w[0]] + shell_read_quoted(w.drop_first())
    }
}

proof fn lemma_read_quoted_escaped(s: Seq<char>)
    ensures
        shell_read_quoted(replace_char(s, '\'', seq!['\'', '\\', '\'', '\'']) + seq!['\'']) == s,
    decreases s.len(),
{
    let rep = seq!['\'', '\\', '\'', '\''];
    let w = replace_char(s, '\'', rep) + seq!['\''];
    if s.len() == 0 {
        assert(w =~= seq!['\'']);
        assert(w.drop_first() =~= Seq::<char>::empty());
        assert(s =~= Seq::<char>::empty());
        assert(w[0] == '\'');
        assert(shell_read_quoted(w) == shell_read(w.drop_first()));
    } else {
        let tail = replace_char(s.drop_first(), '\'', rep) + seq!['\''];
        lemma_read_quoted_escaped(s.drop_first());
        if s[0] == '\'' {
            assert(w =~= rep + tail);
            assert(w.drop_first() =~= seq!['\\', '\'', '\''] + tail);
            let u = w.drop_first();
            assert(u.skip(2) =~= seq!['\''] + tail);
            assert((seq!['\''] + tail).drop_first() =~= tail);
            assert(shell_read(u) == seq!['\''] + shell_read(u.skip(2)));
            assert(u.skip(2)[0] == '\'');
            assert(shell_read(u.skip(2)) == shell_read_quoted(tail));
            assert(w[0] == '\'');
            assert(shell_read_quoted(w) == shell_read(u));
            assert(u[0] == '\\' && u[1] == '\'');
            assert(shell_read_quoted(w) == seq!['\''] + s.drop_first());
        } else {
            assert(w =~= seq![s[0]] + tail);
            assert(w.drop_first() =~= tail);
            assert(w[0] == s[0]);
            assert(shell_read_quoted(w) == seq![s[0]] + shell_read_quoted(tail));
        }
        assert(s =~= seq![s[0]] + s.drop_first());
    }
}

/// A shell reads a quoted value back as the value itself, whatever it holds.
pub proof fn lemma_shell_quote_reads_back(s: Seq<char>)
    ensures
        shell_read(shell_quote_spec(s)) == s,
{
    let q = shell_quote_spec(s);
    assert(q.drop_first() =~= replace_char(s, '\'', seq!['\'', '\\', '\'', '\'']) + seq!['\'']);
    lemma_read_quoted_escaped(s);
}

/// The escape that `shell_quote` writes for a `'` inside the quotes.
pub open spec fn quote_escape() -> Seq<char> {
    seq!['\'', '\\', '\'', '\'']
}

/// A text with each `'\''` replaced by `'`, left to right (as `str::replace` does).
pub open spec fn unescape_quotes(t: Seq<char>) -> Seq<char>
    decreases t.len(),
{
    if t.len() == 0 {
        Seq::<char>::empty()
    } else if t.len() >= 4 && t.take(4) == quote_escape() {
        seq!['\''] + unescape_quotes(t.skip(4))
    } else {
        seq![t[0]] + unescape_quotes(t.drop_first())
    }
}

/// Every `'` of a text belongs to a `'\''`, read left to right.
pub open spec fn quotes_escaped(t: Seq<char>) -> bool
    decreases t.len(),
{
    if t.len() == 0 {
        true
    } else if t.len() >= 4 && t.take(4) == quote_escape() {
        quotes_escaped(t.skip(4))
    } else {
        t[0] != '\'' && quotes_escaped(t.drop_first())
    }
}

proof fn lemma_unescape_escaped(s: Seq<char>)
    ensures
        unescape_quotes(replace_char(s, '\'', quote_escape())) == s,
        quotes_escaped(replace_char(s, '\'', quote_escape())),
    decreases s.len(),
{
    let t = replace_char(s, '\'', quote_escape());
    if s.len() > 0 {
        let rest = replace_char(s.drop_first(), '\'', quote_escape());
        lemma_unescape_escaped(s.drop_first());
        if s[0] == '\'' {
            assert(t =~= quote_escape() + rest);
            assert(t.take(4) =~= quote_escape());
            assert(t.skip(4) =~= rest);
        } else {
            assert(t =~= seq![s[0]] + rest);
            assert(t[0] == s[0]);
            if t.len() >= 4 {
                assert(t.take(4)[0] != quote_escape()[0]);
            }
            assert(t.drop_first() =~= rest);
        }
        assert(s =~= seq![s[0]] + s.drop_first());
    } else {
        assert(s =~= Seq::<char>::empty());
    }
}

/// A quoted value is one single-quoted word: it starts and ends with `'`; between them,
/// every `'` belongs to a `'\''`, and putting `'` back for each `'\''` gives the value.
pub proof fn lemma_shell_quote_unescapes(s: Seq<char>)
    ensures
        shell_quote_spec(s).len() >= 2,
        shell_quote_spec(s)[0] == '\'',
        shell_quote_spec(s).last() == '\'',
        quotes_escaped(shell_quote_spec(s).subrange(1, shell_quote_spec(s).len() - 1)),
        unescape_quotes(shell_quote_spec(s).subrange(1, shell_quote_spec(s).len() - 1)) == s,
{
    let q = shell_quote_spec(s);
    let inner = replace_char(s, '\'', quote_escape());
    assert(seq!['\'', '\\', '\'', '\''] =~= quote_escape());
    assert(q.subrange(1, q.len() - 1) =~= inner);
    lemma_unescape_escaped(s);
}

} // verus!
