//! Character-sequence helpers: the text model that every other module works on.

use vstd::prelude::*;

verus! {

/// `String::push` appends one character.
pub assume_specification[ String::push ](s: &mut String, ch: char)
    ensures
        final(s)@ == old(s)@.push(ch),
;

/// The characters of a string slice, in order.
pub fn chars_of(s: &str) -> (v: Vec<char>)
    ensures
        v@ == s@,
{
    let mut v: Vec<char> = Vec::new();
    for c in it: s.chars()
        invariant
            v@ == it.seq().take(it.index() as int),
            it.seq() == s@,
    {
        v.push(c);
    }
    v
}

/// A string holding exactly the given characters.
pub fn string_of(v: &Vec<char>) -> (s: String)
    ensures
        s@ == v@,
{
    let mut s = String::new();
    push_chars(&mut s, v);
    s
}

/// Appends the given characters to a string.
pub fn push_chars(s: &mut String, v: &Vec<char>)
    ensures
        final(s)@ == old(s)@ + v@,
{
    let ghost start = s@;
    let mut i: usize = 0;
    while i < v.len()
        invariant
            i <= v.len(),
            s@ == start + v@.take(i as int),
        decreases v.len() - i,
    {
        assert(v@.take(i + 1) == v@.take(i as int).push(v@[i as int]));
        s.push(v[i]);
        i = i + 1;
    }
    assert(v@.take(v.len() as int) == v@);
}

/// The characters from `lo` up to (not including) `hi`.
pub fn sub_chars(v: &Vec<char>, lo: usize, hi: usize) -> (r: Vec<char>)
    requires
        lo <= hi <= v.len(),
    ensures
        r@ == v@.subrange(lo as int, hi as int),
{
    let mut r: Vec<char> = Vec::new();
    let mut i: usize = lo;
    while i < hi
        invariant
            lo <= i <= hi <= v.len(),
            r@ == v@.subrange(lo as int, i as int),
        decreases hi - i,
    {
        r.push(v[i]);
        i = i + 1;
    }
    r
}

/// Whether two character vectors hold the same text.
pub fn chars_eq(a: &Vec<char>, b: &Vec<char>) -> (r: bool)
    ensures
        r == (a@ == b@),
{
    if a.len() != b.len() {
        return false;
    }
    let mut i: usize = 0;
    while i < a.len()
        invariant
            a.len() == b.len(),
            i <= a.len(),
            forall|j: int| 0 <= j < i ==> a@[j] == b@[j],
        decreases a.len() - i,
    {
        if a[i] != b[i] {
            return false;
        }
        i = i + 1;
    }
    assert(a@ =~= b@);
    true
}

/// Whether the characters equal the text of `lit`.
pub fn chars_eq_str(a: &Vec<char>, lit: &str) -> (r: bool)
    ensures
        r == (a@ == lit@),
{
    let b = chars_of(lit);
    chars_eq(a, &b)
}

/// Whether `c` occurs in the characters.
pub fn contains_char(v: &Vec<char>, c: char) -> (r: bool)
    ensures
        r == v@.contains(c),
{
    let mut i: usize = 0;
    while i < v.len()
        invariant
            i <= v.len(),
            forall|j: int| 0 <= j < i ==> v@[j] != c,
        decreases v.len() - i,
    {
        if v[i] == c {
            assert(v@[i as int] == c);
            return true;
        }
        i = i + 1;
    }
    false
}

/// Unicode `White_Space`, the set that `char::is_whitespace` tests.
pub open spec fn is_ws(c: char) -> bool {
    ||| ('\t' <= c && c <= '\r')
    ||| c == ' '
    ||| c == '\u{85}'
    ||| c == '\u{a0}'
    ||| c == '\u{1680}'
    ||| ('\u{2000}' <= c && c <= '\u{200a}')
    ||| c == '\u{2028}'
    ||| c == '\u{2029}'
    ||| c == '\u{202f}'
    ||| c == '\u{205f}'
    ||| c == '\u{3000}'
}

/// Which characters a trim removes.
pub enum Strip {
    /// One given character.
    Only(char),
    /// Unicode whitespace.
    Whitespace,
    /// Carriage return and line feed.
    LineBreak,
}

pub open spec fn strips(k: Strip, c: char) -> bool {
    match k {
        Strip::Only(x) => c == x,
        Strip::Whitespace => is_ws(c),
        Strip::LineBreak => c == '\r' || c == '\n',
    }
}

pub fn strips_exec(k: &Strip, c: char) -> (r: bool)
    ensures
        r == strips(*k, c),
{
    match k {
        Strip::Only(x) => c == *x,
        Strip::Whitespace => {
            ('\t' <= c && c <= '\r') || c == ' ' || c == '\u{85}' || c == '\u{a0}' || c
                == '\u{1680}' || ('\u{2000}' <= c && c <= '\u{200a}') || c == '\u{2028}' || c
                == '\u{2029}' || c == '\u{202f}' || c == '\u{205f}' || c == '\u{3000}'
        },
        Strip::LineBreak => c == '\r' || c == '\n',
    }
}

/// `s` without its leading characters of kind `k`.
pub open spec fn trim_start(s: Seq<char>, k: Strip) -> Seq<char>
    decreases s.len(),
{
    if s.len() > 0 && strips(k, s[0]) {
        trim_start(s.drop_first(), k)
    } else {
        s
    }
}

/// `s` without its trailing characters of kind `k`.
pub open spec fn trim_end(s: Seq<char>, k: Strip) -> Seq<char>
    decreases s.len(),
{
    if s.len() > 0 && strips(k, s.last()) {
        trim_end(s.drop_last(), k)
    } else {
        s
    }
}

/// `s` without its leading and trailing characters of kind `k`.
pub open spec fn trim_both(s: Seq<char>, k: Strip) -> Seq<char> {
    trim_end(trim_start(s, k), k)
}

/// Index of the first character of `v[lo..hi]` that a trim of kind `k` keeps (or `hi`).
fn skip_start(v: &Vec<char>, k: &Strip, lo: usize, hi: usize) -> (i: usize)
    requires
        lo <= hi <= v.len(),
    ensures
        lo <= i <= hi,
        trim_start(v@.subrange(lo as int, hi as int), *k) == v@.subrange(i as int, hi as int),
{
    let mut i = lo;
    while i < hi && strips_exec(k, v[i])
        invariant
            lo <= i <= hi <= v.len(),
            trim_start(v@.subrange(lo as int, hi as int), *k) == trim_start(
                v@.subrange(i as int, hi as int),
                *k,
            ),
        decreases hi - i,
    {
        assert(v@.subrange(i as int, hi as int).drop_first() =~= v@.subrange(
            i + 1,
            hi as int,
        ));
        i = i + 1;
    }
    i
}

/// One past the last character of `v[lo..hi]` that a trim of kind `k` keeps (or `lo`).
fn skip_end(v: &Vec<char>, k: &Strip, lo: usize, hi: usize) -> (j: usize)
    requires
        lo <= hi <= v.len(),
    ensures
        lo <= j <= hi,
        trim_end(v@.subrange(lo as int, hi as int), *k) == v@.subrange(lo as int, j as int),
{
    let mut j = hi;
    while j > lo && strips_exec(k, v[j - 1])
        invariant
            lo <= j <= hi <= v.len(),
            trim_end(v@.subrange(lo as int, hi as int), *k) == trim_end(
                v@.subrange(lo as int, j as int),
                *k,
            ),
        decreases j - lo,
    {
        assert(v@.subrange(lo as int, j as int).drop_last() =~= v@.subrange(
            lo as int,
            j - 1,
        ));
        j = j - 1;
    }
    j
}

/// The characters without their leading ones of kind `k`.
pub fn trim_start_chars(v: &Vec<char>, k: &Strip) -> (r: Vec<char>)
    ensures
        r@ == trim_start(v@, *k),
{
    assert(v@.subrange(0, v@.len() as int) =~= v@);
    let i = skip_start(v, k, 0, v.len());
    sub_chars(v, i, v.len())
}

/// The characters without their trailing ones of kind `k`.
pub fn trim_end_chars(v: &Vec<char>, k: &Strip) -> (r: Vec<char>)
    ensures
        r@ == trim_end(v@, *k),
{
    assert(v@.subrange(0, v@.len() as int) =~= v@);
    let j = skip_end(v, k, 0, v.len());
    sub_chars(v, 0, j)
}

/// The characters without their leading and trailing ones of kind `k`.
pub fn trim_chars(v: &Vec<char>, k: &Strip) -> (r: Vec<char>)
    ensures
        r@ == trim_both(v@, *k),
{
    assert(v@.subrange(0, v@.len() as int) =~= v@);
    let i = skip_start(v, k, 0, v.len());
    let j = skip_end(v, k, i, v.len());
    sub_chars(v, i, j)
}


/// The views of a vector of character vectors.
pub open spec fn views(ps: Seq<Vec<char>>) -> Seq<Seq<char>> {
    ps.map_values(|p: Vec<char>| p@)
}

/// The pieces of `s` between occurrences of `sep`, as `str::split` yields them
/// (an empty `s` gives one empty piece).
pub open spec fn split_on(s: Seq<char>, sep: char) -> Seq<Seq<char>>
    decreases s.len(),
{
    if s.len() == 0 {
        seq![Seq::<char>::empty()]
    } else {
        let r = split_on(s.drop_last(), sep);
        if s.last() == sep {
            r.push(Seq::<char>::empty())
        } else {
            r.update(r.len() - 1, r.last().push(s.last()))
        }
    }
}

/// The pieces joined with `sep` between each two of them.
pub open spec fn join_with(parts: Seq<Seq<char>>, sep: char) -> Seq<char>
    decreases parts.len(),
{
    if parts.len() == 0 {
        Seq::<char>::empty()
    } else if parts.len() == 1 {
        parts[0]
    } else {
        join_with(parts.drop_last(), sep) + seq![sep] + parts.last()
    }
}

/// The pieces joined with the text `sep` between each two of them.
pub open spec fn join_text(parts: Seq<Seq<char>>, sep: Seq<char>) -> Seq<char>
    decreases parts.len(),
{
    if parts.len() == 0 {
        Seq::<char>::empty()
    } else if parts.len() == 1 {
        parts[0]
    } else {
        join_text(parts.drop_last(), sep) + sep + parts.last()
    }
}

/// Joining one more piece adds a separator and that piece.
pub proof fn lemma_join_push(parts: Seq<Seq<char>>, x: Seq<char>, sep: char)
    requires
        parts.len() >= 1,
    ensures
        join_with(parts.push(x), sep) == join_with(parts, sep) + seq![sep] + x,
{
    assert(parts.push(x).drop_last() =~= parts);
}

/// Splitting gives at least one piece, and no piece holds the separator.
pub proof fn lemma_split_shape(s: Seq<char>, sep: char)
    ensures
        split_on(s, sep).len() >= 1,
        split_on(s, sep).len() <= s.len() + 1,
        forall|i: int| 0 <= i < split_on(s, sep).len() ==> !(#[trigger] split_on(s, sep)[i]).contains(sep),
    decreases s.len(),
{
    if s.len() > 0 {
        lemma_split_shape(s.drop_last(), sep);
        let r = split_on(s.drop_last(), sep);
        if s.last() != sep {
            let l = r.last().push(s.last());
            assert forall|j: int| 0 <= j < l.len() implies l[j] != sep by {
                if j < r.last().len() {
                    assert(!r[r.len() - 1].contains(sep));
                    assert(l[j] == r.last()[j]);
                }
            }
        }
    }
}

/// Joining the pieces of a split gives back the text.
pub proof fn lemma_split_join(s: Seq<char>, sep: char)
    ensures
        join_with(split_on(s, sep), sep) == s,
    decreases s.len(),
{
    if s.len() > 0 {
        lemma_split_join(s.drop_last(), sep);
        lemma_split_shape(s.drop_last(), sep);
        let r = split_on(s.drop_last(), sep);
        if s.last() == sep {
            let r2 = r.push(Seq::<char>::empty());
            assert(r2.drop_last() =~= r);
            assert(join_with(r2, sep) =~= s.drop_last() + seq![sep]);
            assert(s =~= s.drop_last() + seq![sep]);
        } else {
            let r2 = r.update(r.len() - 1, r.last().push(s.last()));
            if r.len() == 1 {
                assert(s =~= r[0].push(s.last()));
            } else {
                assert(r2.drop_last() =~= r.drop_last());
                assert(join_with(r2, sep) =~= join_with(r.drop_last(), sep) + seq![sep] + r.last().push(
                    s.last(),
                ));
                assert(s =~= s.drop_last().push(s.last()));
            }
        }
    }
}

/// Text without the separator is a single piece.
proof fn lemma_split_single(b: Seq<char>, sep: char)
    requires
        !b.contains(sep),
    ensures
        split_on(b, sep) == seq![b],
    decreases b.len(),
{
    if b.len() == 0 {
        assert(b =~= Seq::<char>::empty());
    } else {
        assert(!b.drop_last().contains(sep)) by {
            if b.drop_last().contains(sep) {
                let k = choose|k: int| 0 <= k < b.drop_last().len() && b.drop_last()[k] == sep;
                assert(b[k] == sep);
            }
        }
        lemma_split_single(b.drop_last(), sep);
        assert(b.last() != sep) by {
            assert(b[b.len() - 1] == b.last());
        }
        assert(b.drop_last().push(b.last()) =~= b);
        assert(seq![b.drop_last()].update(0, b.drop_last().push(b.last())) =~= seq![b]);
    }
}

/// Splitting `x`, a separator and then `b` (which has no separator) adds `b` as a last piece.
proof fn lemma_split_append(x: Seq<char>, b: Seq<char>, sep: char)
    requires
        !b.contains(sep),
    ensures
        split_on(x + seq![sep] + b, sep) == split_on(x, sep).push(b),
    decreases b.len(),
{
    lemma_split_shape(x, sep);
    if b.len() == 0 {
        assert(b =~= Seq::<char>::empty());
        let t = x + seq![sep] + b;
        assert(t =~= x.push(sep));
        assert(t.drop_last() =~= x);
        assert(t.last() == sep);
    } else {
        let b0 = b.drop_last();
        assert(!b0.contains(sep)) by {
            if b0.contains(sep) {
                let k = choose|k: int| 0 <= k < b0.len() && b0[k] == sep;
                assert(b[k] == sep);
            }
        }
        lemma_split_append(x, b0, sep);
        let t = x + seq![sep] + b;
        assert(t.drop_last() =~= x + seq![sep] + b0);
        assert(t.last() == b.last());
        assert(b.last() != sep) by {
            assert(b[b.len() - 1] == b.last());
        }
        assert(b0.push(b.last()) =~= b);
        let r = split_on(x, sep).push(b0);
        assert(split_on(t.drop_last(), sep) == r);
        assert(r.last() == b0);
        assert(split_on(t, sep) == r.update(r.len() - 1, r.last().push(t.last())));
        assert(split_on(x, sep).push(b0).update(
            split_on(x, sep).len() as int,
            b0.push(b.last()),
        ) =~= split_on(x, sep).push(b));
    }
}

/// Splitting the join of pieces without separators gives back the pieces.
pub proof fn lemma_join_split(parts: Seq<Seq<char>>, sep: char)
    requires
        parts.len() >= 1,
        forall|i: int| 0 <= i < parts.len() ==> !(#[trigger] parts[i]).contains(sep),
    ensures
        split_on(join_with(parts, sep), sep) == parts,
    decreases parts.len(),
{
    if parts.len() == 1 {
        lemma_split_single(parts[0], sep);
        assert(seq![parts[0]] =~= parts);
    } else {
        let init = parts.drop_last();
        assert forall|i: int| 0 <= i < init.len() implies !(#[trigger] init[i]).contains(sep) by {
            assert(init[i] == parts[i]);
        }
        lemma_join_split(init, sep);
        assert(!parts.last().contains(sep)) by {
            assert(parts[parts.len() - 1] == parts.last());
        }
        lemma_split_append(join_with(init, sep), parts.last(), sep);
        assert(init.push(parts.last()) =~= parts);
    }
}

/// The pieces of the characters between occurrences of `sep`.
pub fn split_chars(v: &Vec<char>, sep: char) -> (r: Vec<Vec<char>>)
    ensures
        views(r@) == split_on(v@, sep),
{
    let mut pieces: Vec<Vec<char>> = Vec::new();
    let mut cur: Vec<char> = Vec::new();
    let mut i: usize = 0;
    assert(v@.take(0) =~= Seq::<char>::empty());
    assert(views(pieces@).push(cur@) =~= split_on(v@.take(0), sep));
    while i < v.len()
        invariant
            i <= v.len(),
            views(pieces@).push(cur@) == split_on(v@.take(i as int), sep),
        decreases v.len() - i,
    {
        let ghost prev = v@.take(i as int);
        assert(v@.take(i + 1).drop_last() =~= prev);
        assert(v@.take(i + 1).last() == v@[i as int]);
        let c = v[i];
        if c == sep {
            let done = cur;
            pieces.push(done);
            cur = Vec::new();
            assert(views(pieces@).push(cur@) =~= split_on(prev, sep).push(Seq::<char>::empty()));
        } else {
            let ghost old_cur = cur@;
            cur.push(c);
            assert(views(pieces@).push(cur@) =~= split_on(prev, sep).update(
                split_on(prev, sep).len() - 1,
                old_cur.push(c),
            ));
        }
        i = i + 1;
    }
    assert(v@.take(v.len() as int) =~= v@);
    pieces.push(cur);
    assert(views(pieces@) =~= split_on(v@, sep));
    pieces
}

/// `a`, then `b`.
pub fn concat2(a: &str, b: &str) -> (r: String)
    ensures
        r@ == a@ + b@,
{
    let mut r = a.to_owned();
    r.append(b);
    r
}

/// `a`, then `b`, then `c`.
pub fn concat3(a: &str, b: &str, c: &str) -> (r: String)
    ensures
        r@ == a@ + b@ + c@,
{
    let mut r = a.to_owned();
    r.append(b);
    r.append(c);
    r
}

/// `s` with every `c` replaced by `r`.
pub open spec fn replace_char(s: Seq<char>, c: char, r: Seq<char>) -> Seq<char>
    decreases s.len(),
{
    if s.len() == 0 {
        Seq::<char>::empty()
    } else {
        (if s[0] == c {
            r
        } else {
            seq![s[0]]
        }) + replace_char(s.drop_first(), c, r)
    }
}

/// Replacing in a text with one more character at its end.
proof fn lemma_replace_push(s: Seq<char>, x: char, c: char, r: Seq<char>)
    ensures
        replace_char(s.push(x), c, r) == replace_char(s, c, r) + (if x == c {
            r
        } else {
            seq![x]
        }),
    decreases s.len(),
{
    if s.len() == 0 {
        assert(s.push(x).drop_first() =~= Seq::<char>::empty());
        assert(replace_char(Seq::<char>::empty(), c, r) =~= Seq::<char>::empty());
        assert(s =~= Seq::<char>::empty());
    } else {
        lemma_replace_push(s.drop_first(), x, c, r);
        assert(s.push(x).drop_first() =~= s.drop_first().push(x));
        assert(s.push(x)[0] == s[0]);
    }
}

/// Appends the characters with every `c` replaced by `rep`.
pub fn push_replacing(out: &mut String, v: &Vec<char>, c: char, rep: &str)
    ensures
        final(out)@ == old(out)@ + replace_char(v@, c, rep@),
{
    let ghost start = out@;
    let mut i: usize = 0;
    assert(v@.take(0) =~= Seq::<char>::empty());
    while i < v.len()
        invariant
            i <= v.len(),
            out@ == start + replace_char(v@.take(i as int), c, rep@),
        decreases v.len() - i,
    {
        proof {
            lemma_replace_push(v@.take(i as int), v@[i as int], c, rep@);
            assert(v@.take(i as int).push(v@[i as int]) =~= v@.take(i + 1));
        }
        if v[i] == c {
            out.append(rep);
        } else {
            out.push(v[i]);
        }
        assert(out@ =~= start + replace_char(v@.take(i + 1), c, rep@));
        i = i + 1;
    }
    assert(v@.take(v.len() as int) =~= v@);
}

/// Lexicographic order of texts by code point, which is the order `String`'s `Ord` gives
/// (UTF-8 keeps code point order byte by byte).
pub open spec fn text_lt(a: Seq<char>, b: Seq<char>) -> bool
    decreases a.len(),
{
    if a.len() == 0 {
        b.len() > 0
    } else if b.len() == 0 {
        false
    } else if a[0] != b[0] {
        a[0] < b[0]
    } else {
        text_lt(a.drop_first(), b.drop_first())
    }
}

/// No text is below itself.
pub proof fn lemma_text_lt_irreflexive(a: Seq<char>)
    ensures
        !text_lt(a, a),
    decreases a.len(),
{
    if a.len() > 0 {
        lemma_text_lt_irreflexive(a.drop_first());
    }
}

/// Of two different texts, one is below the other, and never both.
pub proof fn lemma_text_lt_total(a: Seq<char>, b: Seq<char>)
    ensures
        a != b ==> (text_lt(a, b) || text_lt(b, a)),
        !(text_lt(a, b) && text_lt(b, a)),
    decreases a.len(),
{
    if a.len() == 0 || b.len() == 0 {
        if a.len() == 0 && b.len() == 0 {
            assert(a =~= b);
        }
    } else if a[0] == b[0] {
        let a1 = a.drop_first();
        let b1 = b.drop_first();
        lemma_text_lt_total(a1, b1);
        assert(text_lt(a, b) == text_lt(a1, b1));
        assert(text_lt(b, a) == text_lt(b1, a1));
        if a1 == b1 {
            assert forall|i: int| 0 <= i < a.len() implies a[i] == b[i] by {
                if i > 0 {
                    assert(a[i] == a1[i - 1]);
                    assert(b[i] == b1[i - 1]);
                }
            }
            assert(a =~= b);
        }
    }
}

/// The order is transitive.
pub proof fn lemma_text_lt_transitive(a: Seq<char>, b: Seq<char>, c: Seq<char>)
    requires
        text_lt(a, b),
        text_lt(b, c),
    ensures
        text_lt(a, c),
    decreases a.len(),
{
    if a.len() > 0 && b.len() > 0 && c.len() > 0 && a[0] == b[0] && b[0] == c[0] {
        lemma_text_lt_transitive(a.drop_first(), b.drop_first(), c.drop_first());
    }
}

/// Whether `a` comes before `b` in the order of `text_lt`.
pub fn chars_lt(a: &Vec<char>, b: &Vec<char>) -> (r: bool)
    ensures
        r == text_lt(a@, b@),
{
    let mut i: usize = 0;
    assert(a@.skip(0) =~= a@);
    assert(b@.skip(0) =~= b@);
    while i < a.len() && i < b.len() && a[i] == b[i]
        invariant
            i <= a.len(),
            i <= b.len(),
            text_lt(a@, b@) == text_lt(a@.skip(i as int), b@.skip(i as int)),
        decreases a.len() - i,
    {
        assert(a@.skip(i as int).drop_first() =~= a@.skip(i + 1));
        assert(b@.skip(i as int).drop_first() =~= b@.skip(i + 1));
        i = i + 1;
    }
    if i == a.len() {
        i < b.len()
    } else if i == b.len() {
        false
    } else {
        assert(a@.skip(i as int)[0] == a@[i as int]);
        assert(b@.skip(i as int)[0] == b@[i as int]);
        a[i] < b[i]
    }
}

} // verus!
