//! The ticker file: one ticker per line, read the way `BufRead::lines`
//! reads a text, with lines that are not UTF-8 skipped.

use vstd::prelude::*;
use vstd::utf8::{decode_utf8, valid_utf8};
use vstd::slice::slice_subrange;

use crate::text::string_views;

verus! {

/// A line without the carriage return that ended it, if any.
pub open spec fn strip_cr(line: Seq<u8>) -> Seq<u8> {
    if line.len() > 0 && line.last() == 13u8 {
        line.drop_last()
    } else {
        line
    }
}

/// Reading `s` from the left: the lines already ended by a newline (each
/// without its `\n` or `\r\n`), and the line still open at the end of `s`.
pub open spec fn line_state(s: Seq<u8>) -> (Seq<Seq<u8>>, Seq<u8>)
    decreases s.len(),
{
    if s.len() == 0 {
        (seq![], seq![])
    } else {
        let (done, cur) = line_state(s.drop_last());
        if s.last() == 10u8 {
            (done.push(strip_cr(cur)), seq![])
        } else {
            (done, cur.push(s.last()))
        }
    }
}

/// The lines of a text as `BufRead::lines` yields them: split at `\n`, a
/// `\r` before the `\n` dropped, and a last line without `\n` kept only if
/// it is not empty.
pub open spec fn text_lines(s: Seq<u8>) -> Seq<Seq<u8>> {
    let (done, cur) = line_state(s);
    if cur.len() > 0 {
        done.push(cur)
    } else {
        done
    }
}

/// A line decoded as UTF-8, or `None` when it is not UTF-8.
pub open spec fn decoded(line: Seq<u8>) -> Option<Seq<char>> {
    if valid_utf8(line) {
        Some(decode_utf8(line))
    } else {
        None
    }
}

/// The views of a list of byte vectors.
pub open spec fn byte_views(v: Seq<Vec<u8>>) -> Seq<Seq<u8>> {
    v.map_values(|x: Vec<u8>| x@)
}

/// The views of a list of optional strings.
pub open spec fn opt_string_views(v: Seq<Option<String>>) -> Seq<Option<Seq<char>>> {
    v.map_values(
        |x: Option<String>|
            match x {
                Some(s) => Some(s@),
                None => None,
            },
    )
}

/// The decodable lines of a text, in order.
pub open spec fn valid_lines(lines: Seq<Seq<u8>>) -> Seq<Seq<char>>
    decreases lines.len(),
{
    if lines.len() == 0 {
        seq![]
    } else {
        let rest = valid_lines(lines.drop_last());
        if valid_utf8(lines.last()) {
            rest.push(decode_utf8(lines.last()))
        } else {
            rest
        }
    }
}

/// Decodes `bytes` with `std::str::from_utf8`, which accepts exactly the
/// well-formed UTF-8 encodings and then yields the encoded characters.
#[verifier::external_body]
fn utf8_to_string(bytes: &[u8]) -> (r: Option<String>)
    ensures
        r is Some <==> valid_utf8(bytes@),
        r matches Some(s) ==> s@ == decode_utf8(bytes@),
{
    match std::str::from_utf8(bytes) {
        Ok(s) => Some(s.to_string()),
        Err(_) => None,
    }
}

/// The line of `data` between `from` and `to`, without a final `\r` when
/// `ended` says that a newline followed it.
fn line_at(data: &[u8], from: usize, to: usize, ended: bool) -> (line: Vec<u8>)
    requires
        from <= to <= data@.len(),
    ensures
        line@ == (if ended {
            strip_cr(data@.subrange(from as int, to as int))
        } else {
            data@.subrange(from as int, to as int)
        }),
{
    if ended && from < to && data[to - 1] == 13u8 {
        assert(data@.subrange(from as int, to as int).drop_last() == data@.subrange(
            from as int,
            to - 1,
        ));
        let piece = slice_subrange(data, from, to - 1);
        vstd::slice::slice_to_vec(piece)
    } else {
        let piece = slice_subrange(data, from, to);
        vstd::slice::slice_to_vec(piece)
    }
}

/// Splits a text into lines as `BufRead::lines` does.
pub fn split_lines(data: &[u8]) -> (lines: Vec<Vec<u8>>)
    ensures
        byte_views(lines@) == text_lines(data@),
{
    let n = data.len();
    let mut lines: Vec<Vec<u8>> = Vec::new();
    let mut start: usize = 0;
    let mut i: usize = 0;
    while i < n
        invariant
            n == data@.len(),
            start <= i <= n,
            line_state(data@.take(i as int)) == (byte_views(lines@), data@.subrange(
                start as int,
                i as int,
            )),
        decreases n - i,
    {
        let b = data[i];
        assert(data@.take(i + 1).drop_last() == data@.take(i as int));
        assert(data@.take(i + 1).last() == b);
        if b == 10u8 {
            let line = line_at(data, start, i, true);
            lines.push(line);
            assert(byte_views(lines@) == byte_views(lines@.drop_last()).push(lines@.last()@));
            start = i + 1;
        } else {
            assert(data@.subrange(start as int, i + 1) == data@.subrange(start as int, i as int).push(
                b,
            ));
        }
        i = i + 1;
    }
    assert(data@.take(n as int) == data@);
    if start < n {
        let line = line_at(data, start, n, false);
        lines.push(line);
        assert(byte_views(lines@) == byte_views(lines@.drop_last()).push(lines@.last()@));
    }
    lines
}

/// The lines of a text, each decoded as UTF-8 or `None` where a line is not
/// UTF-8.
pub fn decode_lines(data: &[u8]) -> (texts: Vec<Option<String>>)
    ensures
        opt_string_views(texts@) == text_lines(data@).map_values(|l: Seq<u8>| decoded(l)),
{
    let lines = split_lines(data);
    let ghost want = text_lines(data@).map_values(|l: Seq<u8>| decoded(l));
    let mut texts: Vec<Option<String>> = Vec::new();
    let mut i: usize = 0;
    while i < lines.len()
        invariant
            i <= lines@.len(),
            byte_views(lines@) == text_lines(data@),
            want == text_lines(data@).map_values(|l: Seq<u8>| decoded(l)),
            texts@.len() == i,
            opt_string_views(texts@) == want.take(i as int),
        decreases lines@.len() - i,
    {
        let t = utf8_to_string(lines[i].as_slice());
        assert(byte_views(lines@)[i as int] == lines@[i as int]@);
        let ghost prev = texts@;
        texts.push(t);
        assert(texts@.drop_last() == prev);
        assert(opt_string_views(texts@) =~= opt_string_views(prev).push(
            opt_string_views(texts@)[i as int],
        ));
        assert(want.take(i + 1) =~= want.take(i as int).push(want[i as int]));
        i = i + 1;
    }
    assert(want.take(want.len() as int) == want);
    texts
}

/// The tickers a ticker file lists: its lines that are UTF-8, in order.
pub fn tickers_from_text(data: &[u8]) -> (tickers: Vec<String>)
    ensures
        string_views(tickers@) == valid_lines(text_lines(data@)),
{
    let lines = split_lines(data);
    let ghost all = text_lines(data@);
    let mut tickers: Vec<String> = Vec::new();
    let mut i: usize = 0;
    while i < lines.len()
        invariant
            i <= lines@.len(),
            byte_views(lines@) == all,
            string_views(tickers@) == valid_lines(all.take(i as int)),
        decreases lines@.len() - i,
    {
        assert(all.take(i + 1).drop_last() == all.take(i as int));
        assert(all[i as int] == lines@[i as int]@);
        match utf8_to_string(lines[i].as_slice()) {
            Some(t) => {
                tickers.push(t);
                assert(string_views(tickers@) == string_views(tickers@.drop_last()).push(
                    tickers@.last()@,
                ));
            },
            None => {},
        }
        i = i + 1;
    }
    assert(all.take(all.len() as int) == all);
    tickers
}

/// Whether `s` has no newline byte.
pub open spec fn no_newline(s: Seq<u8>) -> bool {
    forall|i: int| 0 <= i < s.len() ==> #[trigger] s[i] != 10u8
}

/// After text that ends a line, reading more text starts afresh: the lines
/// of the rest follow the lines already read.
proof fn lemma_line_state_append(p: Seq<u8>, s: Seq<u8>)
    requires
        line_state(p).1.len() == 0,
    ensures
        line_state(p + s) == (line_state(p).0 + line_state(s).0, line_state(s).1),
    decreases s.len(),
{
    if s.len() == 0 {
        assert(p + s == p);
        assert(line_state(p).0 + line_state(s).0 == line_state(p).0);
    } else {
        let s0 = s.drop_last();
        lemma_line_state_append(p, s0);
        assert((p + s).drop_last() == p + s0);
        assert((p + s).last() == s.last());
        let a = line_state(p).0;
        let b = line_state(s0).0;
        let cur = line_state(s0).1;
        assert((a + b).push(strip_cr(cur)) == a + b.push(strip_cr(cur)));
    }
}

/// Text without a newline is one open line.
proof fn lemma_line_state_open(m: Seq<u8>)
    requires
        no_newline(m),
    ensures
        line_state(m) == (Seq::<Seq<u8>>::empty(), m),
    decreases m.len(),
{
    if m.len() > 0 {
        let m0 = m.drop_last();
        assert(no_newline(m0)) by {
            assert forall|i: int| 0 <= i < m0.len() implies #[trigger] m0[i] != 10u8 by {
                assert(m0[i] == m[i]);
            }
        }
        lemma_line_state_open(m0);
        assert(m.last() == m[m.len() - 1]);
        assert(m0.push(m.last()) == m);
    }
}

/// Lines are read one after another: the lines of a text that ends a line,
/// followed by more text, are its lines followed by the lines of the rest.
pub proof fn lemma_text_lines_append(p: Seq<u8>, rest: Seq<u8>)
    requires
        p.len() > 0,
        p.last() == 10u8,
    ensures
        text_lines(p + rest) == text_lines(p) + text_lines(rest),
{
    assert(p.drop_last().push(p.last()) == p);
    lemma_line_state_append(p, rest);
    let a = line_state(p).0;
    let b = line_state(rest).0;
    let cur = line_state(rest).1;
    assert((a + b).push(cur) == a + b.push(cur));
}

/// A line ended by `\r\n` is given without both, wherever it stands.
pub proof fn lemma_crlf_line(m: Seq<u8>, rest: Seq<u8>)
    requires
        no_newline(m),
    ensures
        text_lines(m + seq![13u8, 10u8] + rest) == seq![m] + text_lines(rest),
{
    let p = m + seq![13u8, 10u8];
    lemma_line_state_open(m);
    assert(p.drop_last() == m.push(13u8));
    assert(m.push(13u8).drop_last() == m);
    assert(line_state(m.push(13u8)) == (Seq::<Seq<u8>>::empty(), m.push(13u8)));
    assert(strip_cr(m.push(13u8)) == m);
    assert(line_state(p) == (seq![m], Seq::<u8>::empty()));
    lemma_text_lines_append(p, rest);
}

/// A line ended by a bare `\n` is given as it stands, wherever it stands.
pub proof fn lemma_lf_line(l: Seq<u8>, rest: Seq<u8>)
    requires
        no_newline(l),
        l.len() == 0 || l.last() != 13u8,
    ensures
        text_lines(l.push(10u8) + rest) == seq![l] + text_lines(rest),
{
    let p = l.push(10u8);
    lemma_line_state_open(l);
    assert(p.drop_last() == l);
    assert(strip_cr(l) == l);
    assert(line_state(p) == (seq![l], Seq::<u8>::empty()));
    lemma_text_lines_append(p, rest);
}

/// Reading a ticker file: an empty text has no lines, a last line without
/// a newline is kept as it stands when not empty, and a line is decoded
/// exactly when it is well-formed UTF-8.
pub proof fn lemma_text_lines_ends(m: Seq<u8>, line: Seq<u8>, lines: Seq<Seq<u8>>)
    ensures
        text_lines(Seq::<u8>::empty()) == Seq::<Seq<u8>>::empty(),
        (no_newline(m) && m.len() > 0) ==> text_lines(m) == seq![m],
        decoded(line) == (if valid_utf8(line) {
            Some(decode_utf8(line))
        } else {
            None::<Seq<char>>
        }),
        valid_lines(lines.push(line)) == valid_lines(lines) + (if valid_utf8(line) {
            seq![decode_utf8(line)]
        } else {
            Seq::<Seq<char>>::empty()
        }),
{
    if no_newline(m) && m.len() > 0 {
        lemma_line_state_open(m);
    }
    assert(lines.push(line).drop_last() == lines);
    assert(valid_lines(lines) + Seq::<Seq<char>>::empty() == valid_lines(lines));
}

} // verus!
