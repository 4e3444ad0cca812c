//! Character-level text helpers with exact specifications: splitting on
//! whitespace or on a separator, joining, and prefix tests.

use vstd::prelude::*;

verus! {

/// The characters that `char::is_ascii_whitespace` accepts.
pub open spec fn is_ascii_space(c: char) -> bool {
    c == ' ' || c == '\t' || c == '\n' || c == '\x0C' || c == '\r'
}

/// Reading `s` from the left: the words already completed, and the word
/// still being read at the end of `s`.
pub open spec fn words_state(s: Seq<char>) -> (Seq<Seq<char>>, Seq<char>)
    decreases s.len(),
{
    if s.len() == 0 {
        (seq![], seq![])
    } else {
        let (done, cur) = words_state(s.drop_last());
        if is_ascii_space(s.last()) {
            if cur.len() > 0 {
                (done.push(cur), seq![])
            } else {
                (done, seq![])
            }
        } else {
            (done, cur.push(s.last()))
        }
    }
}

/// The maximal runs of non-whitespace characters of `s`, in order; this is
/// what `str::split_ascii_whitespace` yields.
pub open spec fn ascii_words(s: Seq<char>) -> Seq<Seq<char>> {
    let (done, cur) = words_state(s);
    if cur.len() > 0 {
        done.push(cur)
    } else {
        done
    }
}

/// Reading `s` from the left: the pieces already closed by a `sep`, and the
/// piece still open at the end of `s`.
pub open spec fn split_state(s: Seq<char>, sep: char) -> (Seq<Seq<char>>, Seq<char>)
    decreases s.len(),
{
    if s.len() == 0 {
        (seq![], seq![])
    } else {
        let (done, cur) = split_state(s.drop_last(), sep);
        if s.last() == sep {
            (done.push(cur), seq![])
        } else {
            (done, cur.push(s.last()))
        }
    }
}

/// The pieces of `s` between occurrences of `sep`, empty pieces included;
/// this is what `str::split` with a one-character pattern yields.
pub open spec fn split_on(s: Seq<char>, sep: char) -> Seq<Seq<char>> {
    let (done, cur) = split_state(s, sep);
    done.push(cur)
}

/// The views of a list of strings.
pub open spec fn string_views(v: Seq<String>) -> Seq<Seq<char>> {
    v.map_values(|x: String| x@)
}

/// Whether `prefix` is a prefix of `s`.
pub fn starts_with(s: &str, prefix: &str) -> (r: bool)
    ensures
        r == prefix@.is_prefix_of(s@),
{
    let n = s.unicode_len();
    let m = prefix.unicode_len();
    if m > n {
        return false;
    }
    let mut i: usize = 0;
    while i < m
        invariant
            n == s@.len(),
            m == prefix@.len(),
            m <= n,
            i <= m,
            forall|j: int| 0 <= j < i ==> prefix@[j] == s@[j],
        decreases m - i,
    {
        if s.get_char(i) != prefix.get_char(i) {
            return false;
        }
        i = i + 1;
    }
    true
}

/// The substring of `s` between character positions `from` and `to`.
fn owned_substring(s: &str, from: usize, to: usize) -> (r: String)
    requires
        from <= to <= s@.len(),
    ensures
        r@ == s@.subrange(from as int, to as int),
{
    let piece = s.substring_char(from, to);
    String::from_str(piece)
}

/// Splits `s` on ASCII whitespace, dropping empty pieces, as
/// `str::split_ascii_whitespace` does.
pub fn split_ascii_words(s: &str) -> (words: Vec<String>)
    ensures
        string_views(words@) == ascii_words(s@),
{
    let n = s.unicode_len();
    let mut words: Vec<String> = Vec::new();
    let mut start: usize = 0;
    let mut i: usize = 0;
    while i < n
        invariant
            n == s@.len(),
            start <= i <= n,
            words_state(s@.take(i as int)) == (string_views(words@), s@.subrange(
                start as int,
                i as int,
            )),
        decreases n - i,
    {
        let c = s.get_char(i);
        let ghost before = s@.take(i as int);
        assert(s@.take(i + 1).drop_last() == before);
        assert(s@.take(i + 1).last() == c);
        if c == ' ' || c == '\t' || c == '\n' || c == '\x0C' || c == '\r' {
            if start < i {
                let w = owned_substring(s, start, i);
                words.push(w);
                assert(string_views(words@) == string_views(words@.drop_last()).push(w@));
            }
            start = i + 1;
        } else {
            assert(s@.subrange(start as int, i + 1) == s@.subrange(start as int, i as int).push(c));
        }
        i = i + 1;
    }
    assert(s@.take(n as int) == s@);
    if start < n {
        let w = owned_substring(s, start, n);
        words.push(w);
        assert(string_views(words@) == string_views(words@.drop_last()).push(w@));
    }
    words
}

/// Splits `s` at every occurrence of `sep`, keeping empty pieces, as
/// `str::split` with a one-character pattern does.
pub fn split_char(s: &str, sep: char) -> (pieces: Vec<String>)
    ensures
        string_views(pieces@) == split_on(s@, sep),
{
    let n = s.unicode_len();
    let mut pieces: Vec<String> = Vec::new();
    let mut start: usize = 0;
    let mut i: usize = 0;
    while i < n
        invariant
            n == s@.len(),
            start <= i <= n,
            split_state(s@.take(i as int), sep) == (string_views(pieces@), s@.subrange(
                start as int,
                i as int,
            )),
        decreases n - i,
    {
        let c = s.get_char(i);
        assert(s@.take(i + 1).drop_last() == s@.take(i as int));
        assert(s@.take(i + 1).last() == c);
        if c == sep {
            let w = owned_substring(s, start, i);
            pieces.push(w);
            assert(string_views(pieces@) == string_views(pieces@.drop_last()).push(w@));
            start = i + 1;
        } else {
            assert(s@.subrange(start as int, i + 1) == s@.subrange(start as int, i as int).push(c));
        }
        i = i + 1;
    }
    assert(s@.take(n as int) == s@);
    let w = owned_substring(s, start, n);
    pieces.push(w);
    assert(string_views(pieces@) == string_views(pieces@.drop_last()).push(w@));
    pieces
}

/// The elements of `list` with `sep` between each two neighbours.
pub open spec fn join_with(list: Seq<Seq<char>>, sep: Seq<char>) -> Seq<char>
    decreases list.len(),
{
    if list.len() == 0 {
        seq![]
    } else if list.len() == 1 {
        list[0]
    } else {
        join_with(list.drop_last(), sep) + sep + list.last()
    }
}

/// Joins `list` with `sep` between each two neighbours, as `[String]::join`
/// does.
pub fn join(list: &Vec<String>, sep: &str) -> (r: String)
    ensures
        r@ == join_with(string_views(list@), sep@),
{
    let mut r = String::new();
    let mut i: usize = 0;
    while i < list.len()
        invariant
            i <= list@.len(),
            r@ == join_with(string_views(list@.take(i as int)), sep@),
        decreases list@.len() - i,
    {
        assert(string_views(list@.take(i + 1)).drop_last() == string_views(list@.take(i as int)));
        assert(string_views(list@.take(i + 1)).last() == list@[i as int]@);
        if i > 0 {
            r.append(sep);
        }
        r.append(list[i].as_str());
        i = i + 1;
    }
    assert(list@.take(list@.len() as int) == list@);
    r
}

/// Whether `item` occurs in `list`.
pub fn contains_string(list: &Vec<String>, item: &String) -> (r: bool)
    ensures
        r == string_views(list@).contains(item@),
{
    let mut i: usize = 0;
    while i < list.len()
        invariant
            i <= list@.len(),
            forall|j: int| 0 <= j < i ==> list@[j]@ != item@,
        decreases list@.len() - i,
    {
        if list[i] == *item {
            assert(string_views(list@)[i as int] == item@);
            return true;
        }
        i = i + 1;
    }
    assert forall|j: int| 0 <= j < string_views(list@).len() implies string_views(list@)[j] != item@ by {
        assert(string_views(list@)[j] == list@[j]@);
    }
    false
}

/// The characters that `char::is_whitespace` accepts: those with the
/// Unicode `White_Space` property.
pub open spec fn is_unicode_space(c: char) -> bool {
    ||| '\u{9}' <= c <= '\u{d}'
    ||| c == ' '
    ||| c == '\u{85}'
    ||| c == '\u{a0}'
    ||| c == '\u{1680}'
    ||| '\u{2000}' <= c <= '\u{200a}'
    ||| c == '\u{2028}'
    ||| c == '\u{2029}'
    ||| c == '\u{202f}'
    ||| c == '\u{205f}'
    ||| c == '\u{3000}'
}

/// `s` without its leading whitespace.
pub open spec fn trim_start(s: Seq<char>) -> Seq<char>
    decreases s.len(),
{
    if s.len() > 0 && is_unicode_space(s[0]) {
        trim_start(s.drop_first())
    } else {
        s
    }
}

/// `s` without its trailing whitespace.
pub open spec fn trim_end(s: Seq<char>) -> Seq<char>
    decreases s.len(),
{
    if s.len() > 0 && is_unicode_space(s.last()) {
        trim_end(s.drop_last())
    } else {
        s
    }
}

/// `s` without leading and trailing whitespace, as `str::trim` gives it.
pub open spec fn trimmed(s: Seq<char>) -> Seq<char> {
    trim_end(trim_start(s))
}

/// Whether `c` is whitespace, as `char::is_whitespace` decides.
fn is_space_char(c: char) -> (r: bool)
    ensures
        r == is_unicode_space(c),
{
    ('\u{9}' <= c && c <= '\u{d}') || c == ' ' || c == '\u{85}' || c == '\u{a0}' || c == '\u{1680}'
        || ('\u{2000}' <= c && c <= '\u{200a}') || c == '\u{2028}' || c == '\u{2029}' || c
        == '\u{202f}' || c == '\u{205f}' || c == '\u{3000}'
}

/// `s` without leading and trailing whitespace, as `str::trim` gives it.
pub fn trim(s: &str) -> (r: String)
    ensures
        r@ == trimmed(s@),
{
    let n = s.unicode_len();
    let mut a: usize = 0;
    assert(s@.subrange(0, n as int) == s@);
    while a < n && is_space_char(s.get_char(a))
        invariant
            n == s@.len(),
            a <= n,
            trim_start(s@.subrange(a as int, n as int)) == trim_start(s@),
        decreases n - a,
    {
        assert(s@.subrange(a as int, n as int).drop_first() == s@.subrange(a + 1, n as int));
        a = a + 1;
    }
    assert(trim_start(s@) == s@.subrange(a as int, n as int));
    let mut b: usize = n;
    while b > a && is_space_char(s.get_char(b - 1))
        invariant
            n == s@.len(),
            a <= b <= n,
            trim_end(s@.subrange(a as int, b as int)) == trim_end(s@.subrange(a as int, n as int)),
        decreases b,
    {
        assert(s@.subrange(a as int, b as int).drop_last() == s@.subrange(a as int, b - 1));
        b = b - 1;
    }
    owned_substring(s, a, b)
}

/// The ASCII whitespace characters are exactly space, tab, line feed, form
/// feed and carriage return.
pub proof fn lemma_ascii_space_chars(c: char)
    ensures
        is_ascii_space(c) <==> (c == ' ' || c == '\t' || c == '\n' || c == '\x0C' || c == '\r'),
{
}

/// The Unicode whitespace characters are exactly those with the
/// `White_Space` property.
pub proof fn lemma_unicode_space_chars(c: char)
    ensures
        is_unicode_space(c) <==> (('\u{9}' <= c <= '\u{d}') || c == ' ' || c == '\u{85}' || c
            == '\u{a0}' || c == '\u{1680}' || ('\u{2000}' <= c <= '\u{200a}') || c == '\u{2028}'
            || c == '\u{2029}' || c == '\u{202f}' || c == '\u{205f}' || c == '\u{3000}'),
{
}

/// After a closed word, reading more text starts afresh.
proof fn lemma_words_state_append(p: Seq<char>, s: Seq<char>)
    requires
        words_state(p).1.len() == 0,
    ensures
        words_state(p + s) == (words_state(p).0 + words_state(s).0, words_state(s).1),
    decreases s.len(),
{
    if s.len() == 0 {
        assert(p + s == p);
        assert(words_state(p).0 + words_state(s).0 == words_state(p).0);
    } else {
        let s0 = s.drop_last();
        lemma_words_state_append(p, s0);
        assert((p + s).drop_last() == p + s0);
        assert((p + s).last() == s.last());
        let a = words_state(p).0;
        let b = words_state(s0).0;
        let cur = words_state(s0).1;
        assert((a + b).push(cur) == a + b.push(cur));
    }
}

/// Text without whitespace is one open word.
proof fn lemma_words_state_open(w: Seq<char>)
    requires
        forall|i: int| 0 <= i < w.len() ==> !is_ascii_space(#[trigger] w[i]),
    ensures
        words_state(w) == (Seq::<Seq<char>>::empty(), w),
    decreases w.len(),
{
    if w.len() > 0 {
        let w0 = w.drop_last();
        assert forall|i: int| 0 <= i < w0.len() implies !is_ascii_space(#[trigger] w0[i]) by {
            assert(w0[i] == w[i]);
        }
        lemma_words_state_open(w0);
        assert(w.last() == w[w.len() - 1]);
        assert(w0.push(w.last()) == w);
    }
}

/// Splitting on whitespace: a whitespace character separates the words
/// before it from the words after it, wherever it stands; a text without
/// whitespace is one word, or none when it is empty.
pub proof fn lemma_ascii_words_laws(a: Seq<char>, c: char, b: Seq<char>, w: Seq<char>)
    ensures
        (c == ' ' || c == '\t' || c == '\n' || c == '\x0C' || c == '\r') ==> ascii_words(
            a.push(c) + b,
        ) == ascii_words(a) + ascii_words(b),
        (forall|i: int| 0 <= i < w.len() ==> !is_ascii_space(#[trigger] w[i])) ==> ascii_words(w)
            == (if w.len() == 0 {
            Seq::<Seq<char>>::empty()
        } else {
            seq![w]
        }),
{
    if c == ' ' || c == '\t' || c == '\n' || c == '\x0C' || c == '\r' {
        assert(a.push(c).drop_last() == a);
        assert(words_state(a.push(c)) == (ascii_words(a), Seq::<char>::empty()));
        lemma_words_state_append(a.push(c), b);
        let x = ascii_words(a);
        let y = words_state(b).0;
        let cur = words_state(b).1;
        assert((x + y).push(cur) == x + y.push(cur));
    }
    if forall|i: int| 0 <= i < w.len() ==> !is_ascii_space(#[trigger] w[i]) {
        lemma_words_state_open(w);
    }
}

/// After a separator, reading more text starts afresh.
proof fn lemma_split_state_append(p: Seq<char>, s: Seq<char>, sep: char)
    requires
        split_state(p, sep).1.len() == 0,
    ensures
        split_state(p + s, sep) == (split_state(p, sep).0 + split_state(s, sep).0, split_state(
            s,
            sep,
        ).1),
    decreases s.len(),
{
    if s.len() == 0 {
        assert(p + s == p);
        assert(split_state(p, sep).0 + split_state(s, sep).0 == split_state(p, sep).0);
    } else {
        let s0 = s.drop_last();
        lemma_split_state_append(p, s0, sep);
        assert((p + s).drop_last() == p + s0);
        assert((p + s).last() == s.last());
        let a = split_state(p, sep).0;
        let b = split_state(s0, sep).0;
        let cur = split_state(s0, sep).1;
        assert((a + b).push(cur) == a + b.push(cur));
    }
}

/// Text without the separator is one open piece.
proof fn lemma_split_state_open(w: Seq<char>, sep: char)
    requires
        forall|i: int| 0 <= i < w.len() ==> #[trigger] w[i] != sep,
    ensures
        split_state(w, sep) == (Seq::<Seq<char>>::empty(), w),
    decreases w.len(),
{
    if w.len() > 0 {
        let w0 = w.drop_last();
        assert forall|i: int| 0 <= i < w0.len() implies #[trigger] w0[i] != sep by {
            assert(w0[i] == w[i]);
        }
        lemma_split_state_open(w0, sep);
        assert(w.last() == w[w.len() - 1]);
        assert(w0.push(w.last()) == w);
    }
}

/// Splitting at a separator: each occurrence of the separator divides the
/// pieces before it from the pieces after it, wherever it stands; a text
/// without the separator is a single piece, even when empty.
pub proof fn lemma_split_on_laws(a: Seq<char>, b: Seq<char>, w: Seq<char>, sep: char)
    ensures
        split_on(a.push(sep) + b, sep) == split_on(a, sep) + split_on(b, sep),
        (forall|i: int| 0 <= i < w.len() ==> #[trigger] w[i] != sep) ==> split_on(w, sep) == seq![w],
{
    assert(a.push(sep).drop_last() == a);
    assert(split_state(a.push(sep), sep) == (split_on(a, sep), Seq::<char>::empty()));
    lemma_split_state_append(a.push(sep), b, sep);
    let x = split_on(a, sep);
    let y = split_state(b, sep).0;
    let cur = split_state(b, sep).1;
    assert((x + y).push(cur) == x + y.push(cur));
    if forall|i: int| 0 <= i < w.len() ==> #[trigger] w[i] != sep {
        lemma_split_state_open(w, sep);
    }
}

/// Joining: nothing gives nothing, one element gives itself, and one more
/// element is appended after the separator.
pub proof fn lemma_join_with_laws(list: Seq<Seq<char>>, x: Seq<char>, sep: Seq<char>)
    ensures
        join_with(Seq::<Seq<char>>::empty(), sep) == Seq::<char>::empty(),
        join_with(seq![x], sep) == x,
        list.len() > 0 ==> join_with(list.push(x), sep) == join_with(list, sep) + sep + x,
{
    assert(seq![x][0] == x);
    if list.len() > 0 {
        assert(list.push(x).drop_last() == list);
    }
}

/// Trimming removes exactly the whitespace at both ends: what remains is a
/// contiguous part of the text, everything cut off is whitespace, and what
/// remains neither starts nor ends with whitespace.
pub proof fn lemma_trimmed_laws(s: Seq<char>)
    ensures
        exists|a: int, b: int|
            0 <= a <= b <= s.len() && trimmed(s) == s.subrange(a, b) && (forall|i: int|
                0 <= i < a ==> is_unicode_space(#[trigger] s[i])) && (forall|i: int|
                b <= i < s.len() ==> is_unicode_space(#[trigger] s[i])),
        trimmed(s).len() > 0 ==> !is_unicode_space(trimmed(s)[0]) && !is_unicode_space(
            trimmed(s).last(),
        ),
{
    let a = lemma_trim_start_cut(s);
    let t = s.subrange(a, s.len() as int);
    let b = lemma_trim_end_cut(t);
    assert(trimmed(s) == s.subrange(a, a + b));
    assert forall|i: int| a + b <= i < s.len() implies is_unicode_space(#[trigger] s[i]) by {
        assert(s[i] == t[i - a]);
    }
    assert(t.subrange(0, b) == s.subrange(a, a + b));
    if trimmed(s).len() > 0 {
        assert(trimmed(s)[0] == t[0]);
    }
}

/// `trim_start` cuts off a whitespace prefix and stops at a non-space.
proof fn lemma_trim_start_cut(s: Seq<char>) -> (a: int)
    ensures
        0 <= a <= s.len(),
        trim_start(s) == s.subrange(a, s.len() as int),
        forall|i: int| 0 <= i < a ==> is_unicode_space(#[trigger] s[i]),
        a < s.len() ==> !is_unicode_space(s[a]),
    decreases s.len(),
{
    if s.len() > 0 && is_unicode_space(s[0]) {
        let r = lemma_trim_start_cut(s.drop_first());
        assert forall|i: int| 0 <= i < r + 1 implies is_unicode_space(#[trigger] s[i]) by {
            if i > 0 {
                assert(s[i] == s.drop_first()[i - 1]);
            }
        }
        assert(s.drop_first().subrange(r, s.drop_first().len() as int) == s.subrange(
            r + 1,
            s.len() as int,
        ));
        r + 1
    } else {
        assert(s.subrange(0, s.len() as int) == s);
        0
    }
}

/// `trim_end` keeps a prefix, cuts off a whitespace suffix, and stops at a
/// non-space.
proof fn lemma_trim_end_cut(s: Seq<char>) -> (b: int)
    ensures
        0 <= b <= s.len(),
        trim_end(s) == s.subrange(0, b),
        forall|i: int| b <= i < s.len() ==> is_unicode_space(#[trigger] s[i]),
        b > 0 ==> !is_unicode_space(s[b - 1]),
    decreases s.len(),
{
    if s.len() > 0 && is_unicode_space(s.last()) {
        let r = lemma_trim_end_cut(s.drop_last());
        assert forall|i: int| r <= i < s.len() implies is_unicode_space(#[trigger] s[i]) by {
            if i < s.len() - 1 {
                assert(s[i] == s.drop_last()[i]);
            }
        }
        assert(s.drop_last().subrange(0, r) == s.subrange(0, r));
        r
    } else {
        assert(s.subrange(0, s.len() as int) == s);
        s.len() as int
    }
}

} // verus!
