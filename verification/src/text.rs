//! Text model shared by the request parsers: character search, splitting
//! on a separator, and the order in which `String`s compare.

use vstd::prelude::*;

verus! {

/// The views of a sequence of `String`s.
pub open spec fn texts(v: Seq<String>) -> Seq<Seq<char>> {
    v.map_values(|p: String| p@)
}

/// `v` holds a `String` whose view is `t`.
pub open spec fn has_text(v: Seq<String>, t: Seq<char>) -> bool {
    texts(v).contains(t)
}

/// Whether `v` holds a `String` equal to `t`.
pub fn contains_text(v: &Vec<String>, t: &str) -> (r: bool)
    ensures
        r == has_text(v@, t@),
{
    let wanted = String::from_str(t);
    let mut i: usize = 0;
    while i < v.len()
        invariant
            i <= v.len(),
            wanted@ == t@,
            forall|j: int| 0 <= j < i ==> v@[j]@ != t@,
        decreases v.len() - i,
    {
        if v[i] == wanted {
            proof {
                assert(texts(v@)[i as int] == t@);
            }
            return true;
        }
        i = i + 1;
    }
    proof {
        assert forall|j: int| 0 <= j < texts(v@).len() implies texts(v@)[j] != t@ by {
            assert(texts(v@)[j] == v@[j]@);
        }
    }
    false
}

/// Position of the first `c` in `s`, or `s.len()` when `s` holds no `c`.
pub open spec fn index_of_char(s: Seq<char>, c: char) -> nat
    decreases s.len(),
{
    if s.len() == 0 {
        0
    } else if s[0] == c {
        0
    } else {
        1 + index_of_char(s.drop_first(), c)
    }
}

/// `s` holds no `c`.
pub open spec fn lacks_char(s: Seq<char>, c: char) -> bool {
    forall|j: int| 0 <= j < s.len() ==> s[j] != c
}

/// The pieces of `s` between the occurrences of `sep`, in the order in
/// which `str::split` with a `char` pattern yields them.
pub open spec fn split_on(s: Seq<char>, sep: char) -> Seq<Seq<char>>
    decreases s.len(),
{
    let i = index_of_char(s, sep);
    if i < s.len() {
        seq![s.take(i as int)] + split_on(s.skip(i as int + 1), sep)
    } else {
        seq![s]
    }
}

/// The pieces of `parts` joined with `sep` between each two of them.
pub open spec fn join_with(parts: Seq<Seq<char>>, sep: char) -> Seq<char>
    decreases parts.len(),
{
    if parts.len() <= 1 {
        if parts.len() == 0 {
            Seq::empty()
        } else {
            parts[0]
        }
    } else {
        parts[0] + seq![sep] + join_with(parts.drop_first(), sep)
    }
}

/// `a` sorts strictly before `b` in the order of `String`'s `Ord`: code
/// point by code point, a proper prefix first (UTF-8 byte order agrees with
/// code point order).
pub open spec fn text_lt(a: Seq<char>, b: Seq<char>) -> bool
    decreases a.len(),
{
    if a.len() == 0 {
        b.len() > 0
    } else if b.len() == 0 {
        false
    } else if a[0] != b[0] {
        (a[0] as int) < (b[0] as int)
    } else {
        text_lt(a.drop_first(), b.drop_first())
    }
}

pub proof fn lemma_index_of_char(s: Seq<char>, c: char, i: int)
    requires
        0 <= i <= s.len(),
        forall|j: int| 0 <= j < i ==> s[j] != c,
        i == s.len() || s[i] == c,
    ensures
        index_of_char(s, c) == i,
    decreases s.len(),
{
    if s.len() > 0 && i > 0 {
        assert forall|j: int| 0 <= j < i - 1 implies s.drop_first()[j] != c by {
            assert(s.drop_first()[j] == s[j + 1]);
        }
        lemma_index_of_char(s.drop_first(), c, i - 1);
    }
}

pub proof fn lemma_index_of_char_bounds(s: Seq<char>, c: char)
    ensures
        index_of_char(s, c) <= s.len(),
        index_of_char(s, c) < s.len() ==> s[index_of_char(s, c) as int] == c,
        forall|j: int| 0 <= j < index_of_char(s, c) ==> s[j] != c,
    decreases s.len(),
{
    if s.len() > 0 && s[0] != c {
        lemma_index_of_char_bounds(s.drop_first(), c);
        let k = index_of_char(s.drop_first(), c);
        assert forall|j: int| 0 <= j < index_of_char(s, c) implies s[j] != c by {
            if j > 0 {
                assert(s[j] == s.drop_first()[j - 1]);
            }
        }
        if k < s.drop_first().len() {
            assert(s[k as int + 1] == s.drop_first()[k as int]);
        }
    }
}

/// Unfolds `split_on` at a separator with none before it.
pub proof fn lemma_split_at_first(s: Seq<char>, sep: char, k: int)
    requires
        0 <= k < s.len(),
        s[k] == sep,
        forall|j: int| 0 <= j < k ==> s[j] != sep,
    ensures
        split_on(s, sep) == seq![s.take(k)] + split_on(s.skip(k + 1), sep),
{
    lemma_index_of_char(s, sep, k);
}

/// A text without the separator is a single piece.
pub proof fn lemma_split_none(s: Seq<char>, sep: char)
    requires
        lacks_char(s, sep),
    ensures
        split_on(s, sep) == seq![s],
{
    lemma_index_of_char(s, sep, s.len() as int);
}

/// Splitting always yields at least one piece.
pub proof fn lemma_split_nonempty(s: Seq<char>, sep: char)
    ensures
        split_on(s, sep).len() >= 1,
    decreases s.len(),
{
    lemma_index_of_char_bounds(s, sep);
}

/// What a filter keeps was in the sequence filtered.
pub proof fn lemma_filter_member<A>(s: Seq<A>, f: spec_fn(A) -> bool, x: A)
    requires
        s.filter(f).contains(x),
    ensures
        s.contains(x),
    decreases s.len(),
{
    reveal(Seq::filter);
    if s.len() > 0 {
        if f(s.last()) && x == s.last() {
            assert(s[s.len() - 1] == x);
        } else {
            if f(s.last()) {
                let t = s.drop_last().filter(f);
                let m = choose|m: int| 0 <= m < s.filter(f).len() && s.filter(f)[m] == x;
                assert(m < t.len());
                assert(t[m] == x);
            }
            lemma_filter_member(s.drop_last(), f, x);
            let m = choose|m: int| 0 <= m < s.drop_last().len() && s.drop_last()[m] == x;
            assert(s[m] == x);
        }
    }
}

/// Splits `s` at every `sep`.
pub fn split_pieces(s: &str, sep: char) -> (pieces: Vec<String>)
    ensures
        texts(pieces@) == split_on(s@, sep),
{
    let n = s.unicode_len();
    let mut pieces: Vec<String> = Vec::new();
    let mut start: usize = 0;
    let mut i: usize = 0;
    proof {
        assert(s@.skip(0) =~= s@);
        assert(texts(pieces@) =~= Seq::<Seq<char>>::empty());
        assert(Seq::<Seq<char>>::empty() + split_on(s@, sep) =~= split_on(s@, sep));
    }
    while i < n
        invariant
            n == s@.len(),
            start <= i <= n,
            forall|j: int| start <= j < i ==> s@[j] != sep,
            texts(pieces@) + split_on(s@.skip(start as int), sep) == split_on(s@, sep),
        decreases n - i,
    {
        if s.get_char(i) == sep {
            let piece = s.substring_char(start, i).to_owned();
            proof {
                let t = s@.skip(start as int);
                let k = i - start;
                assert forall|j: int| 0 <= j < k implies t[j] != sep by {
                    assert(t[j] == s@[start + j]);
                }
                lemma_split_at_first(t, sep, k);
                assert(t.take(k) =~= s@.subrange(start as int, i as int));
                assert(t.skip(k + 1) =~= s@.skip(i + 1));
                assert(texts(pieces@.push(piece)) =~= texts(pieces@).push(piece@));
                assert(texts(pieces@).push(piece@) + split_on(s@.skip(i + 1), sep) =~= texts(
                    pieces@,
                ) + (seq![piece@] + split_on(s@.skip(i + 1), sep)));
            }
            pieces.push(piece);
            start = i + 1;
        }
        i = i + 1;
    }
    let last = s.substring_char(start, n).to_owned();
    proof {
        let t = s@.skip(start as int);
        assert forall|j: int| 0 <= j < t.len() implies t[j] != sep by {
            assert(t[j] == s@[start + j]);
        }
        lemma_split_none(t, sep);
        assert(t =~= s@.subrange(start as int, n as int));
        assert(texts(pieces@.push(last)) =~= texts(pieces@).push(last@));
        assert(texts(pieces@) + seq![t] =~= texts(pieces@).push(last@));
    }
    pieces.push(last);
    pieces
}


/// No text sorts before itself.
pub proof fn lemma_text_lt_irreflexive(a: Seq<char>)
    ensures
        !text_lt(a, a),
    decreases a.len(),
{
    if a.len() > 0 {
        lemma_text_lt_irreflexive(a.drop_first());
    }
}

/// Two texts that neither sort before the other are equal.
pub proof fn lemma_text_lt_total(a: Seq<char>, b: Seq<char>)
    ensures
        a == b || text_lt(a, b) || text_lt(b, a),
    decreases a.len(),
{
    if a.len() > 0 && b.len() > 0 && a[0] == b[0] {
        lemma_text_lt_total(a.drop_first(), b.drop_first());
        if a.drop_first() == b.drop_first() {
            assert(a.len() == a.drop_first().len() + 1);
            assert(b.len() == b.drop_first().len() + 1);
            assert(a.len() == b.len());
            assert forall|i: int| 0 <= i < a.len() implies a[i] == b[i] by {
                if i > 0 {
                    assert(a[i] == a.drop_first()[i - 1]);
                    assert(b[i] == b.drop_first()[i - 1]);
                }
            }
            assert(a =~= b);
        }
    } else if a.len() == 0 && b.len() == 0 {
        assert(a =~= b);
    } else if a.len() > 0 && b.len() > 0 {
        assert((a[0] as int) != (b[0] as int));
    }
}

/// At most one of two texts sorts before the other.
pub proof fn lemma_text_lt_asymmetric(a: Seq<char>, b: Seq<char>)
    ensures
        text_lt(a, b) ==> !text_lt(b, a),
    decreases a.len(),
{
    if a.len() > 0 && b.len() > 0 && a[0] == b[0] {
        lemma_text_lt_asymmetric(a.drop_first(), b.drop_first());
    }
}

/// The order is transitive.
pub proof fn lemma_text_lt_transitive(a: Seq<char>, b: Seq<char>, c: Seq<char>)
    requires
        text_lt(a, b),
        text_lt(b, c),
    ensures
        text_lt(a, c),
    decreases a.len(),
{
    if a.len() > 0 && b.len() > 0 && c.len() > 0 && a[0] == b[0] && b[0] == c[0] {
        lemma_text_lt_transitive(a.drop_first(), b.drop_first(), c.drop_first());
    }
}

/// Two texts that agree up to a first differing character sort by that
/// character's code point, whatever follows it.
pub proof fn lemma_text_lt_first_difference(
    s: Seq<char>,
    c: char,
    t: Seq<char>,
    d: char,
    u: Seq<char>,
)
    requires
        c != d,
    ensures
        text_lt(s + seq![c] + t, s + seq![d] + u) == ((c as int) < (d as int)),
    decreases s.len(),
{
    let a = s + seq![c] + t;
    let b = s + seq![d] + u;
    if s.len() == 0 {
        assert(a[0] == c);
        assert(b[0] == d);
        assert((c as int) != (d as int));
    } else {
        assert(a[0] == s[0]);
        assert(b[0] == s[0]);
        assert(a.drop_first() =~= s.drop_first() + seq![c] + t);
        assert(b.drop_first() =~= s.drop_first() + seq![d] + u);
        lemma_text_lt_first_difference(s.drop_first(), c, t, d, u);
    }
}

/// A text sorts before every longer text that starts with it.
pub proof fn lemma_text_lt_proper_prefix(s: Seq<char>, c: char, t: Seq<char>)
    ensures
        text_lt(s, s + seq![c] + t),
        !text_lt(s + seq![c] + t, s),
    decreases s.len(),
{
    let b = s + seq![c] + t;
    if s.len() > 0 {
        assert(b[0] == s[0]);
        assert(b.drop_first() =~= s.drop_first() + seq![c] + t);
        lemma_text_lt_proper_prefix(s.drop_first(), c, t);
    }
}

/// Whether `a` sorts strictly before `b` as `String`s do.
pub fn text_less(a: &str, b: &str) -> (r: bool)
    ensures
        r == text_lt(a@, b@),
{
    let na = a.unicode_len();
    let nb = b.unicode_len();
    let mut i: usize = 0;
    proof {
        assert(a@.skip(0) =~= a@);
        assert(b@.skip(0) =~= b@);
    }
    while i < na && i < nb
        invariant
            i <= na,
            i <= nb,
            na == a@.len(),
            nb == b@.len(),
            text_lt(a@, b@) == text_lt(a@.skip(i as int), b@.skip(i as int)),
        decreases na - i,
    {
        let ca = a.get_char(i);
        let cb = b.get_char(i);
        proof {
            assert(a@.skip(i as int)[0] == ca);
            assert(b@.skip(i as int)[0] == cb);
        }
        if ca != cb {
            return (ca as u32) < (cb as u32);
        }
        proof {
            assert(a@.skip(i as int).drop_first() =~= a@.skip(i + 1));
            assert(b@.skip(i as int).drop_first() =~= b@.skip(i + 1));
        }
        i = i + 1;
    }
    i < nb
}

/// Splitting undoes joining, for pieces that hold no separator.
pub proof fn lemma_split_join(parts: Seq<Seq<char>>, sep: char)
    requires
        parts.len() >= 1,
        forall|i: int| 0 <= i < parts.len() ==> lacks_char(#[trigger] parts[i], sep),
    ensures
        split_on(join_with(parts, sep), sep) == parts,
    decreases parts.len(),
{
    if parts.len() == 1 {
        lemma_split_none(parts[0], sep);
        assert(seq![parts[0]] =~= parts);
    } else {
        let rest = parts.drop_first();
        assert forall|i: int| 0 <= i < rest.len() implies lacks_char(#[trigger] rest[i], sep) by {
            assert(rest[i] == parts[i + 1]);
        }
        lemma_split_join(rest, sep);
        let p0 = parts[0];
        let s = join_with(parts, sep);
        let k = p0.len() as int;
        assert(lacks_char(parts[0], sep));
        assert(s[k] == sep);
        lemma_split_at_first(s, sep, k);
        assert(s.take(k) =~= p0);
        assert(s.skip(k + 1) =~= join_with(rest, sep));
        assert(seq![p0] + rest =~= parts);
    }
}

} // verus!
