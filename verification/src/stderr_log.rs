//! The buffer that keeps the tail of VLC's error output, and the choice of
//! the line that explains a failure.

use vstd::prelude::*;
use vstd::utf8::{encode_scalar, encode_utf8};
use crate::text::{chars_of, first_match_from, lemma_first_match_from};

verus! {

broadcast use vstd::string::group_string_axioms;

/// Largest size, in bytes, the error-output buffer is trimmed back to.
pub const STDERR_MAX_BYTES: usize = 4096;

/// Size in bytes of the UTF-8 encoding of `s`.
pub open spec fn byte_len(s: Seq<char>) -> nat {
    encode_utf8(s).len()
}

/// Size in bytes of the UTF-8 encoding of one character.
pub open spec fn char_width(c: char) -> nat {
    encode_scalar(c as u32).len()
}

/// Appending a character adds its width to the byte size.
pub proof fn lemma_byte_len_push(s: Seq<char>, c: char)
    ensures
        byte_len(s.push(c)) == byte_len(s) + char_width(c),
    decreases s.len(),
{
    if s.len() == 0 {
        assert(s.push(c).drop_first() =~= Seq::<char>::empty());
        assert(encode_utf8(Seq::<char>::empty()) =~= Seq::<u8>::empty());
    } else {
        assert(s.push(c).drop_first() =~= s.drop_first().push(c));
        lemma_byte_len_push(s.drop_first(), c);
    }
}

/// Every character takes at least one byte.
pub proof fn lemma_char_width_pos(c: char)
    ensures
        1 <= char_width(c) <= 4,
{
}

/// Byte offset of character `k` in `s`.
pub open spec fn byte_offset(s: Seq<char>, k: int) -> nat {
    byte_len(s.take(k))
}

/// Byte offsets grow with the character index.
pub proof fn lemma_byte_offset_step(s: Seq<char>, k: int)
    requires
        0 <= k < s.len(),
    ensures
        byte_offset(s, k + 1) == byte_offset(s, k) + char_width(s[k]),
        byte_offset(s, k) < byte_offset(s, k + 1),
{
    assert(s.take(k + 1) =~= s.take(k).push(s[k]));
    lemma_byte_len_push(s.take(k), s[k]);
    lemma_char_width_pos(s[k]);
}

/// Byte offsets are strictly increasing.
pub proof fn lemma_byte_offset_mono(s: Seq<char>, i: int, j: int)
    requires
        0 <= i < j <= s.len(),
    ensures
        byte_offset(s, i) < byte_offset(s, j),
    decreases j - i,
{
    lemma_byte_offset_step(s, j - 1);
    if i < j - 1 {
        lemma_byte_offset_mono(s, i, j - 1);
    }
}

/// The offset after the last character is the byte size.
pub proof fn lemma_byte_offset_end(s: Seq<char>)
    ensures
        byte_offset(s, s.len() as int) == byte_len(s),
{
    assert(s.take(s.len() as int) =~= s);
}

/// The byte size of a text is the offset of a character plus the size of
/// what follows it.
pub proof fn lemma_byte_len_split(s: Seq<char>, k: int)
    requires
        0 <= k <= s.len(),
    ensures
        byte_len(s) == byte_offset(s, k) + byte_len(s.skip(k)),
    decreases s.len() - k,
{
    if k == s.len() {
        lemma_byte_offset_end(s);
        assert(s.skip(k) =~= Seq::<char>::empty());
        assert(encode_utf8(Seq::<char>::empty()) =~= Seq::<u8>::empty());
    } else {
        lemma_byte_len_split(s, k + 1);
        lemma_byte_offset_step(s, k);
        assert(s.skip(k).drop_first() =~= s.skip(k + 1));
        assert(s.skip(k)[0] == s[k]);
    }
}

/// Width of a character's UTF-8 encoding.
pub fn utf8_width(c: char) -> (w: usize)
    ensures
        w == char_width(c),
{
    let v = c as u32;
    if v <= 0x7f {
        1
    } else if v <= 0x7ff {
        2
    } else if v <= 0xffff {
        3
    } else {
        4
    }
}

/// The error-output buffer after one more line: the line alone when the
/// buffer was empty, otherwise the buffer, a newline and the line.
pub open spec fn with_line(buf: Seq<char>, line: Seq<char>) -> Seq<char> {
    if buf.len() == 0 {
        line
    } else {
        buf.push('\n') + line
    }
}

/// Appends a line of VLC's error output to the buffer, separated from what
/// is there by a newline.
pub fn append_stderr_line(buf: &mut String, line: &str)
    ensures
        final(buf)@ == with_line(old(buf)@, line@),
{
    proof {
        reveal_strlit("\n");
    }
    if !buf.as_str().is_empty() {
        buf.append("\n");
        assert(buf@ =~= old(buf)@.push('\n'));
    }
    buf.append(line);
}

/// The first character index at or after `k` whose byte offset is at least
/// `b` (the length of `s` when there is none): the first character boundary
/// at or after byte `b`.
pub open spec fn boundary_from(s: Seq<char>, b: nat, k: nat) -> nat
    decreases s.len() - k,
{
    if k >= s.len() || byte_offset(s, k as int) >= b {
        k
    } else {
        boundary_from(s, b, k + 1)
    }
}

/// `boundary_from` finds the first character whose offset reaches `b`.
pub proof fn lemma_boundary_from(s: Seq<char>, b: nat, k: nat)
    requires
        k <= s.len(),
    ensures
        k <= boundary_from(s, b, k) <= s.len(),
        boundary_from(s, b, k) < s.len() ==> byte_offset(s, boundary_from(s, b, k) as int) >= b,
        forall|i: int| k <= i < boundary_from(s, b, k) ==> byte_offset(s, i) < b,
    decreases s.len() - k,
{
    if k < s.len() && byte_offset(s, k as int) < b {
        lemma_boundary_from(s, b, k + 1);
    }
}

/// The character index at which the kept tail may start: the first
/// character boundary at or after the point `cap` bytes before the end.
pub open spec fn tail_cut_index(s: Seq<char>, cap: nat) -> nat {
    boundary_from(s, (byte_len(s) - cap) as nat, 0)
}

/// The buffer after trimming to its tail: when it is longer than `cap`
/// bytes, everything up to and including the first newline at or after the
/// first character boundary at or after the point `cap` bytes before its end
/// is dropped; when there is no such newline, or the buffer is short enough,
/// it is kept whole.
pub open spec fn trimmed_tail(s: Seq<char>, cap: nat) -> Seq<char> {
    if byte_len(s) <= cap {
        s
    } else {
        match first_match_from(s, seq!['\n'], tail_cut_index(s, cap)) {
            Some(j) => s.skip((j + 1) as int),
            None => s,
        }
    }
}

/// `t` is a tail of `u` that starts at a line start of `u`: it is all of
/// `u`, or it follows a newline of `u`.
pub open spec fn line_tail_of(t: Seq<char>, u: Seq<char>) -> bool {
    &&& t.len() <= u.len()
    &&& t == u.skip(u.len() - t.len())
    &&& t.len() < u.len() ==> u[u.len() - t.len() - 1] == '\n'
}

/// Trimming keeps a tail that starts at a line start; when a newline
/// follows the cut point, what is left is shorter than `cap` bytes.
pub proof fn lemma_trimmed_tail_bounds(s: Seq<char>, cap: nat)
    ensures
        line_tail_of(trimmed_tail(s, cap), s),
        byte_len(s) > cap && first_match_from(s, seq!['\n'], tail_cut_index(s, cap)) is Some
            ==> byte_len(trimmed_tail(s, cap)) < cap,
{
    if byte_len(s) > cap {
        let k0 = tail_cut_index(s, cap);
        lemma_boundary_from(s, (byte_len(s) - cap) as nat, 0);
        lemma_first_match_from(s, seq!['\n'], k0);
        match first_match_from(s, seq!['\n'], k0) {
            Some(jn) => {
                let j = jn as int;
                assert(s.subrange(j, j + 1) == seq!['\n']);
                assert(s.subrange(j, j + 1)[0] == s[j]);
                lemma_byte_len_split(s, j + 1);
                if k0 < j + 1 {
                    lemma_byte_offset_mono(s, k0 as int, j + 1);
                }
                assert(s.skip(j + 1) =~= s.skip(s.len() - s.skip(j + 1).len()));
            },
            None => {
                assert(s =~= s.skip(0));
            },
        }
    } else {
        assert(s =~= s.skip(0));
    }
}

/// The line has no newline in it.
pub open spec fn single_line(l: Seq<char>) -> bool {
    forall|i: int| 0 <= i < l.len() ==> l[i] != '\n'
}

/// `t` ends with `l`.
pub open spec fn ends_with(t: Seq<char>, l: Seq<char>) -> bool {
    t.len() >= l.len() && t.subrange(t.len() - l.len(), t.len() as int) == l
}

/// The newest line survives trimming: after a line without newlines is
/// appended and the buffer trimmed, the buffer still ends with that line.
pub proof fn lemma_newest_line_kept(buf: Seq<char>, line: Seq<char>, cap: nat)
    requires
        single_line(line),
    ensures
        ends_with(trimmed_tail(with_line(buf, line), cap), line),
{
    let s = with_line(buf, line);
    let t = trimmed_tail(s, cap);
    lemma_trimmed_tail_bounds(s, cap);
    if t.len() < s.len() {
        let j = s.len() - t.len() - 1;
        assert(s[j] == '\n');
        if buf.len() == 0 {
            assert(s[j] == line[j]);
        } else {
            assert(s =~= buf.push('\n') + line);
            if j > buf.len() {
                assert(s[j] == line[j - buf.len() - 1]);
            }
        }
        assert(t.subrange(t.len() - line.len(), t.len() as int) =~= line) by {
            if buf.len() == 0 {
            } else {
                assert forall|i: int| 0 <= i < line.len() implies t.subrange(
                    t.len() - line.len(),
                    t.len() as int,
                )[i] == line[i] by {
                    assert(t[t.len() - line.len() + i] == s[s.len() - line.len() + i]);
                    assert(s[s.len() - line.len() + i] == line[i]);
                }
            }
        }
    } else {
        assert(t =~= s);
        if buf.len() == 0 {
            assert(s.subrange(s.len() - line.len(), s.len() as int) =~= line);
        } else {
            assert(s =~= buf.push('\n') + line);
            assert(s.subrange(s.len() - line.len(), s.len() as int) =~= line);
        }
    }
}

/// The buffer stays capped: when the appended line is shorter than `cap`
/// bytes and holds no newline, the trimmed buffer holds at most `cap` bytes.
pub proof fn lemma_trimmed_buffer_capped(buf: Seq<char>, line: Seq<char>, cap: nat)
    requires
        single_line(line),
        byte_len(line) < cap,
    ensures
        byte_len(trimmed_tail(with_line(buf, line), cap)) <= cap,
{
    let s = with_line(buf, line);
    lemma_trimmed_tail_bounds(s, cap);
    if byte_len(s) > cap && buf.len() > 0 {
        let p = buf.len() as int;
        assert(s =~= buf.push('\n') + line);
        assert(s.skip(p + 1) =~= line);
        lemma_byte_len_split(s, p + 1);
        lemma_byte_offset_step(s, p);
        assert(s[p] == '\n');
        assert(char_width('\n') == 1) by {
            assert(('\n' as u32) == 10);
        }
        let start = (byte_len(s) - cap) as nat;
        let k0 = tail_cut_index(s, cap);
        lemma_boundary_from(s, start, 0);
        assert(byte_offset(s, p) >= start);
        assert(k0 <= p);
        lemma_first_match_from(s, seq!['\n'], k0);
        assert(s.subrange(p, p + 1) =~= seq!['\n']);
        assert(crate::text::occurs_at(s, seq!['\n'], p));
    }
}

/// The buffer kept after lines `ls` were read, one after another: each line
/// appended, then the buffer trimmed to `cap` bytes.
pub open spec fn stderr_buffer_after(ls: Seq<Seq<char>>, cap: nat) -> Seq<char>
    decreases ls.len(),
{
    if ls.len() == 0 {
        seq![]
    } else {
        trimmed_tail(with_line(stderr_buffer_after(ls.drop_last(), cap), ls.last()), cap)
    }
}

/// All of the lines `ls`, appended one after another without trimming.
pub open spec fn stderr_untrimmed(ls: Seq<Seq<char>>) -> Seq<char>
    decreases ls.len(),
{
    if ls.len() == 0 {
        seq![]
    } else {
        with_line(stderr_untrimmed(ls.drop_last()), ls.last())
    }
}

/// Appending the same line keeps a line-start tail a line-start tail.
proof fn lemma_with_line_tail(t: Seq<char>, u: Seq<char>, l: Seq<char>)
    requires
        line_tail_of(t, u),
    ensures
        line_tail_of(with_line(t, l), with_line(u, l)),
{
    let w = with_line(t, l);
    let ww = with_line(u, l);
    if t.len() == u.len() {
        assert(t =~= u.skip(0));
        assert(t =~= u);
        assert(w =~= ww.skip(0));
    } else if t.len() > 0 {
        assert(w =~= t.push('\n') + l);
        assert(ww =~= u.push('\n') + l);
        assert(w =~= ww.skip(ww.len() - w.len()));
        assert(ww[ww.len() - w.len() - 1] == u[u.len() - t.len() - 1]);
    } else {
        assert(ww =~= u.push('\n') + l);
        assert(u[u.len() - 1] == '\n');
        assert(w =~= ww.skip(ww.len() - w.len()));
        assert(ww[ww.len() - w.len() - 1] == '\n');
    }
}

/// A line-start tail of a line-start tail is a line-start tail.
proof fn lemma_line_tail_trans(r: Seq<char>, t: Seq<char>, u: Seq<char>)
    requires
        line_tail_of(r, t),
        line_tail_of(t, u),
    ensures
        line_tail_of(r, u),
{
    assert(r =~= u.skip(u.len() - r.len()));
    if r.len() < u.len() {
        if r.len() < t.len() {
            assert(u[u.len() - r.len() - 1] == t[t.len() - r.len() - 1]);
        } else {
            assert(r =~= t);
        }
    }
}

/// Over any run of lines that hold no newline and are each shorter than
/// `cap` bytes, the buffer holds at most `cap` bytes, ends with the newest
/// line, and is a tail of everything read that starts at a line start.
pub proof fn lemma_stderr_buffer_run(ls: Seq<Seq<char>>, cap: nat)
    requires
        forall|i: int| 0 <= i < ls.len() ==> single_line(#[trigger] ls[i]) && byte_len(ls[i])
            < cap,
    ensures
        byte_len(stderr_buffer_after(ls, cap)) <= cap,
        line_tail_of(stderr_buffer_after(ls, cap), stderr_untrimmed(ls)),
        ls.len() > 0 ==> ends_with(stderr_buffer_after(ls, cap), ls.last()),
    decreases ls.len(),
{
    if ls.len() == 0 {
        assert(encode_utf8(Seq::<char>::empty()) =~= Seq::<u8>::empty());
        assert(Seq::<char>::empty() =~= Seq::<char>::empty().skip(0));
    } else {
        let prev = ls.drop_last();
        assert forall|i: int| 0 <= i < prev.len() implies single_line(#[trigger] prev[i])
            && byte_len(prev[i]) < cap by {
            assert(prev[i] == ls[i]);
        }
        lemma_stderr_buffer_run(prev, cap);
        let l = ls.last();
        assert(l == ls[ls.len() - 1]);
        let t = stderr_buffer_after(prev, cap);
        let w = with_line(t, l);
        lemma_trimmed_tail_bounds(w, cap);
        lemma_trimmed_buffer_capped(t, l, cap);
        lemma_newest_line_kept(t, l, cap);
        lemma_with_line_tail(t, stderr_untrimmed(prev), l);
        lemma_line_tail_trans(trimmed_tail(w, cap), w, stderr_untrimmed(ls));
    }
}

/// The character index of the first character boundary at or after byte
/// `start` of `s`, whose byte size is `total`.
fn boundary_at_or_after(s: &Vec<char>, total: usize, start: usize) -> (k: usize)
    requires
        total == byte_len(s@),
        start <= total,
    ensures
        k == boundary_from(s@, start as nat, 0),
{
    let mut k: usize = 0;
    let mut off: usize = 0;
    while off < start && k < s.len()
        invariant
            total == byte_len(s@),
            start <= total,
            k <= s@.len(),
            off == byte_offset(s@, k as int),
            boundary_from(s@, start as nat, 0) == boundary_from(s@, start as nat, k as nat),
        decreases s@.len() - k,
    {
        proof {
            lemma_byte_offset_step(s@, k as int);
            if k + 1 < s@.len() {
                lemma_byte_offset_mono(s@, k as int + 1, s@.len() as int);
            }
            lemma_byte_offset_end(s@);
        }
        off = off + utf8_width(s[k]);
        k = k + 1;
    }
    k
}

/// Trims the buffer to its tail once it holds more than `cap` bytes: the
/// cut goes just after the first newline at or after the first character
/// boundary at or after the point `cap` bytes before the end, so that only
/// whole lines remain.
pub fn trim_stderr_tail(buf: &mut String, cap: usize)
    requires
        byte_len(old(buf)@) <= usize::MAX,
    ensures
        final(buf)@ == trimmed_tail(old(buf)@, cap as nat),
{
    let total = buf.as_str().len();
    if total <= cap {
        return;
    }
    let start = total - cap;
    let s = chars_of(buf.as_str());
    let k = boundary_at_or_after(&s, total, start);
    let newline = vec!['\n'];
    proof {
        assert(newline@ =~= seq!['\n']);
    }
    match crate::text::find_from(&s, &newline, k) {
        Some(j) => {
            proof {
                lemma_first_match_from(s@, newline@, k as nat);
            }
            let n = s.len();
            let rest = String::from_str(buf.as_str().substring_char(j + 1, n));
            *buf = rest;
            proof {
                assert(buf@ =~= old(buf)@.skip(j + 1));
            }
        },
        None => {},
    }
}

/// A line as `str::lines` yields it: a trailing `"\r"` is dropped when
/// the line ended with a newline.
pub open spec fn strip_cr(l: Seq<char>) -> Seq<char> {
    if l.len() > 0 && l.last() == '\r' {
        l.drop_last()
    } else {
        l
    }
}

/// The index of the first newline at or after `i`, or the length of `s`.
pub open spec fn newline_from(s: Seq<char>, i: nat) -> nat
    decreases s.len() - i,
{
    if i >= s.len() {
        s.len()
    } else if s[i as int] == '\n' {
        i
    } else {
        newline_from(s, i + 1)
    }
}

/// `newline_from` finds the first newline.
pub proof fn lemma_newline_from(s: Seq<char>, i: nat)
    requires
        i <= s.len(),
    ensures
        i <= newline_from(s, i) <= s.len(),
        newline_from(s, i) < s.len() ==> s[newline_from(s, i) as int] == '\n',
        forall|j: int| i <= j < newline_from(s, i) ==> s[j] != '\n',
    decreases s.len() - i,
{
    if i < s.len() && s[i as int] != '\n' {
        lemma_newline_from(s, i + 1);
    }
}

/// The lines of `s` from position `i` on, as `str::lines` splits them: at
/// each newline, with a `"\r"` before the newline dropped, and no empty
/// line after a final newline.
pub open spec fn lines_from(s: Seq<char>, i: nat) -> Seq<Seq<char>>
    decreases s.len() - i,
{
    if i >= s.len() {
        seq![]
    } else {
        let e = newline_from(s, i);
        proof {
            lemma_newline_from(s, i);
        }
        if e < s.len() {
            seq![strip_cr(s.subrange(i as int, e as int))] + lines_from(s, e + 1)
        } else {
            seq![s.subrange(i as int, e as int)]
        }
    }
}

/// Splitting into lines: no line holds a newline, a text without newlines
/// is one line (none when empty), and there are at most as many lines as
/// the text has characters.
pub proof fn lemma_lines_from(s: Seq<char>, i: nat)
    requires
        i <= s.len(),
    ensures
        forall|k: int, j: int|
            0 <= k < lines_from(s, i).len() && 0 <= j < lines_from(s, i)[k].len() ==> #[trigger] lines_from(
                s,
                i,
            )[k][j] != '\n',
        (forall|j: int| i <= j < s.len() ==> s[j] != '\n') ==> lines_from(s, i) == (if i
            == s.len() {
            Seq::<Seq<char>>::empty()
        } else {
            seq![s.subrange(i as int, s.len() as int)]
        }),
        lines_from(s, i).len() <= s.len() - i,
    decreases s.len() - i,
{
    if i < s.len() {
        let e = newline_from(s, i);
        lemma_newline_from(s, i);
        if e < s.len() {
            lemma_lines_from(s, e + 1);
            let first = strip_cr(s.subrange(i as int, e as int));
            let rest = lines_from(s, e + 1);
            assert(lines_from(s, i) == seq![first] + rest);
            assert forall|k: int, j: int|
                0 <= k < lines_from(s, i).len() && 0 <= j < lines_from(s, i)[k].len() implies #[trigger] lines_from(
                s,
                i,
            )[k][j] != '\n' by {
                if k == 0 {
                    assert(first[j] == s[i + j]);
                } else {
                    assert(lines_from(s, i)[k] == rest[k - 1]);
                }
            }
        } else {
            assert forall|k: int, j: int|
                0 <= k < lines_from(s, i).len() && 0 <= j < lines_from(s, i)[k].len() implies #[trigger] lines_from(
                s,
                i,
            )[k][j] != '\n' by {
                assert(lines_from(s, i)[k][j] == s[i + j]);
            }
        }
    } else {
        assert(lines_from(s, i) =~= Seq::<Seq<char>>::empty());
    }
}

/// The lines of `s`.
pub open spec fn lines(s: Seq<char>) -> Seq<Seq<char>> {
    lines_from(s, 0)
}

/// The text of each character range of `s`.
pub open spec fn range_texts(s: Seq<char>, rs: Seq<(usize, usize)>) -> Seq<Seq<char>> {
    rs.map_values(|r: (usize, usize)| s.subrange(r.0 as int, r.1 as int))
}

/// Every range is ordered and lies within `0..n`.
pub open spec fn ranges_within(rs: Seq<(usize, usize)>, n: nat) -> bool {
    forall|k: int| 0 <= k < rs.len() ==> #[trigger] rs[k].0 <= rs[k].1 <= n
}

/// Character ranges of the lines of `s`.
fn line_ranges(s: &Vec<char>) -> (rs: Vec<(usize, usize)>)
    ensures
        range_texts(s@, rs@) == lines(s@),
        ranges_within(rs@, s@.len()),
{
    let n = s.len();
    let mut rs: Vec<(usize, usize)> = Vec::new();
    let mut pos: usize = 0;
    while pos < n
        invariant
            n == s@.len(),
            pos <= n,
            lines(s@) == range_texts(s@, rs@) + lines_from(s@, pos as nat),
            ranges_within(rs@, s@.len()),
        decreases n - pos,
    {
        let mut e = pos;
        while e < n && s[e] != '\n'
            invariant
                n == s@.len(),
                pos <= e <= n,
                newline_from(s@, pos as nat) == newline_from(s@, e as nat),
            decreases n - e,
        {
            e = e + 1;
        }
        proof {
            assert(newline_from(s@, e as nat) == e);
        }
        let ghost old_rs = rs@;
        if e < n {
            let b = if e > pos && s[e - 1] == '\r' {
                e - 1
            } else {
                e
            };
            rs.push((pos, b));
            proof {
                assert(strip_cr(s@.subrange(pos as int, e as int)) =~= s@.subrange(
                    pos as int,
                    b as int,
                ));
                assert(range_texts(s@, rs@) =~= range_texts(s@, old_rs).push(
                    s@.subrange(pos as int, b as int),
                ));
                assert(lines_from(s@, pos as nat) =~= seq![s@.subrange(pos as int, b as int)]
                    + lines_from(s@, (e + 1) as nat));
                assert(lines(s@) =~= range_texts(s@, rs@) + lines_from(s@, (e + 1) as nat));
            }
            pos = e + 1;
        } else {
            rs.push((pos, e));
            proof {
                assert(range_texts(s@, rs@) =~= range_texts(s@, old_rs).push(
                    s@.subrange(pos as int, e as int),
                ));
                assert(lines(s@) =~= range_texts(s@, rs@) + lines_from(s@, n as nat));
            }
            pos = n;
        }
    }
    proof {
        assert(lines(s@) =~= range_texts(s@, rs@));
    }
    rs
}

/// ASCII lowercasing of one character; every other character is kept.
/// For the ASCII keywords below, a line contains a keyword after this
/// lowercasing exactly when it does after full Unicode lowercasing. Only two
/// non-ASCII characters lowercase into ASCII letters: the Kelvin sign gives
/// `k`, in no keyword, and `İ` gives `i` followed by a combining dot, which
/// matches no keyword either: the one keyword with an `i` follows it with
/// `l`, and ASCII lowercasing leaves `İ` as it is.
pub open spec fn ascii_lower(c: char) -> char {
    if 65 <= (c as u32) <= 90 {
        ((c as u32) + 32) as char
    } else {
        c
    }
}

/// A line with every ASCII capital letter lowercased.
pub open spec fn lowercase(l: Seq<char>) -> Seq<char> {
    l.map_values(|c: char| ascii_lower(c))
}

/// The words that mark a line of VLC's error output as an error report.
pub open spec fn error_keywords() -> Seq<Seq<char>> {
    seq!["error:"@, "cannot"@, "failed"@, "fatal"@]
}

/// `pat` occurs somewhere in `l`.
pub open spec fn contains(l: Seq<char>, pat: Seq<char>) -> bool {
    exists|i: int| crate::text::occurs_at(l, pat, i)
}

/// The lowercased line contains one of the error keywords.
pub open spec fn mentions_error(l: Seq<char>) -> bool {
    exists|k: int| 0 <= k < 4 && #[trigger] contains(lowercase(l), error_keywords()[k])
}

/// Unicode `White_Space`, the property `char::is_whitespace` tests.
pub open spec fn is_white_space(c: char) -> bool {
    let v = c as u32;
    ||| 9 <= v <= 13
    ||| v == 32
    ||| v == 0x85
    ||| v == 0xa0
    ||| v == 0x1680
    ||| 0x2000 <= v <= 0x200a
    ||| v == 0x2028
    ||| v == 0x2029
    ||| v == 0x202f
    ||| v == 0x205f
    ||| v == 0x3000
}

/// The line is empty once trimmed of white space.
pub open spec fn is_blank(l: Seq<char>) -> bool {
    forall|i: int| 0 <= i < l.len() ==> is_white_space(#[trigger] l[i])
}

/// The last line that mentions an error.
pub open spec fn last_error_line(ls: Seq<Seq<char>>) -> Option<Seq<char>>
    decreases ls.len(),
{
    if ls.len() == 0 {
        None
    } else if mentions_error(ls.last()) {
        Some(ls.last())
    } else {
        last_error_line(ls.drop_last())
    }
}

/// The last line that is not blank.
pub open spec fn last_nonblank_line(ls: Seq<Seq<char>>) -> Option<Seq<char>>
    decreases ls.len(),
{
    if ls.len() == 0 {
        None
    } else if !is_blank(ls.last()) {
        Some(ls.last())
    } else {
        last_nonblank_line(ls.drop_last())
    }
}

/// The prefix of the messages built from VLC's error output.
pub open spec fn error_prefix() -> Seq<char> {
    "VLC error: "@
}

/// The message that explains a failure from VLC's error output: the most
/// recent line that mentions an error, else the most recent non-blank line,
/// each behind `"VLC error: "`; none when every line is blank.
pub open spec fn stderr_error_text(content: Seq<char>) -> Option<Seq<char>> {
    match last_error_line(lines(content)) {
        Some(l) => Some(error_prefix() + l),
        None => match last_nonblank_line(lines(content)) {
            Some(l) => Some(error_prefix() + l),
            None => None,
        },
    }
}

/// A line mentions an error exactly when, with its capital ASCII letters
/// lowered, it contains `error:`, `cannot`, `failed` or `fatal`; lowering
/// changes only `A`..`Z`, each into its small letter.
pub proof fn lemma_mentions_error(l: Seq<char>)
    ensures
        mentions_error(l) <==> (contains(lowercase(l), "error:"@) || contains(lowercase(l), "cannot"@)
            || contains(lowercase(l), "failed"@) || contains(lowercase(l), "fatal"@)),
        lowercase(l).len() == l.len(),
        forall|i: int|
            0 <= i < l.len() ==> (#[trigger] lowercase(l)[i] == if 'A' as u32 <= l[i] as u32
                <= 'Z' as u32 {
                ((l[i] as u32) + 32) as char
            } else {
                l[i]
            }),
{
    let kws = error_keywords();
    if contains(lowercase(l), "error:"@) {
        assert(contains(lowercase(l), kws[0]));
    }
    if contains(lowercase(l), "cannot"@) {
        assert(contains(lowercase(l), kws[1]));
    }
    if contains(lowercase(l), "failed"@) {
        assert(contains(lowercase(l), kws[2]));
    }
    if contains(lowercase(l), "fatal"@) {
        assert(contains(lowercase(l), kws[3]));
    }
    if mentions_error(l) {
        let k = choose|k: int| 0 <= k < 4 && #[trigger] contains(lowercase(l), kws[k]);
        assert(k == 0 || k == 1 || k == 2 || k == 3);
    }
}

/// `last_error_line` picks the last line that mentions an error, and finds
/// none only when no line does.
pub proof fn lemma_last_error_line(ls: Seq<Seq<char>>)
    ensures
        last_error_line(ls) matches Some(l) ==> exists|i: int|
            0 <= i < ls.len() && ls[i] == l && mentions_error(l) && forall|j: int|
                i < j < ls.len() ==> !mentions_error(#[trigger] ls[j]),
        last_error_line(ls) is None ==> forall|i: int|
            0 <= i < ls.len() ==> !mentions_error(#[trigger] ls[i]),
    decreases ls.len(),
{
    if ls.len() > 0 {
        let n = ls.len() - 1;
        if mentions_error(ls.last()) {
            assert(ls[n] == ls.last());
        } else {
            let rest = ls.drop_last();
            lemma_last_error_line(rest);
            if let Some(l) = last_error_line(rest) {
                let i = choose|i: int|
                    0 <= i < rest.len() && rest[i] == l && mentions_error(l) && forall|j: int|
                        i < j < rest.len() ==> !mentions_error(#[trigger] rest[j]);
                assert(ls[i] == l);
                assert forall|j: int| i < j < ls.len() implies !mentions_error(#[trigger] ls[j]) by {
                    if j < n {
                        assert(ls[j] == rest[j]);
                    }
                }
            } else {
                assert forall|k: int| 0 <= k < ls.len() implies !mentions_error(#[trigger] ls[k]) by {
                    if k < n {
                        assert(ls[k] == rest[k]);
                    }
                }
            }
        }
    }
}

/// `last_nonblank_line` picks the last line that is not blank, and finds
/// none only when every line is blank.
pub proof fn lemma_last_nonblank_line(ls: Seq<Seq<char>>)
    ensures
        last_nonblank_line(ls) matches Some(l) ==> exists|i: int|
            0 <= i < ls.len() && ls[i] == l && !is_blank(l) && forall|j: int|
                i < j < ls.len() ==> is_blank(#[trigger] ls[j]),
        last_nonblank_line(ls) is None ==> forall|i: int|
            0 <= i < ls.len() ==> is_blank(#[trigger] ls[i]),
    decreases ls.len(),
{
    if ls.len() > 0 {
        let n = ls.len() - 1;
        if !is_blank(ls.last()) {
            assert(ls[n] == ls.last());
        } else {
            let rest = ls.drop_last();
            lemma_last_nonblank_line(rest);
            if let Some(l) = last_nonblank_line(rest) {
                let i = choose|i: int|
                    0 <= i < rest.len() && rest[i] == l && !is_blank(l) && forall|j: int|
                        i < j < rest.len() ==> is_blank(#[trigger] rest[j]);
                assert(ls[i] == l);
                assert forall|j: int| i < j < ls.len() implies is_blank(#[trigger] ls[j]) by {
                    if j < n {
                        assert(ls[j] == rest[j]);
                    }
                }
            } else {
                assert forall|k: int| 0 <= k < ls.len() implies is_blank(#[trigger] ls[k]) by {
                    if k < n {
                        assert(ls[k] == rest[k]);
                    }
                }
            }
        }
    }
}

/// The error message from VLC's output quotes one of its lines: the last
/// one that mentions an error if there is one, else the last non-blank one;
/// there is no message exactly when every line is blank and none mentions
/// an error.
pub proof fn lemma_stderr_error_choice(content: Seq<char>)
    ensures
        stderr_error_text(content) matches Some(m) ==> exists|i: int|
            0 <= i < lines(content).len() && m == error_prefix() + lines(content)[i],
        (exists|i: int| 0 <= i < lines(content).len() && mentions_error(lines(content)[i]))
            ==> stderr_error_text(content) is Some && (stderr_error_text(content) matches Some(m)
            && exists|i: int|
            0 <= i < lines(content).len() && m == error_prefix() + lines(content)[i]
                && mentions_error(lines(content)[i]) && forall|j: int|
                i < j < lines(content).len() ==> !mentions_error(#[trigger] lines(content)[j])),
        stderr_error_text(content) is None <==> forall|i: int|
            0 <= i < lines(content).len() ==> is_blank(#[trigger] lines(content)[i])
                && !mentions_error(lines(content)[i]),
{
    let ls = lines(content);
    lemma_last_error_line(ls);
    lemma_last_nonblank_line(ls);
}

fn lower_char(c: char) -> (r: char)
    ensures
        r == ascii_lower(c),
{
    if 'A' <= c && c <= 'Z' {
        let b = c as u8;
        (b + 32) as char
    } else {
        c
    }
}

fn white_space(c: char) -> (r: bool)
    ensures
        r == is_white_space(c),
{
    let v = c as u32;
    (9 <= v && v <= 13) || v == 32 || v == 0x85 || v == 0xa0 || v == 0x1680 || (0x2000 <= v && v
        <= 0x200a) || v == 0x2028 || v == 0x2029 || v == 0x202f || v == 0x205f || v == 0x3000
}

/// Whether the lowercased text of `s[a..b]` contains `pat`.
fn contains_lowered(s: &Vec<char>, a: usize, b: usize, pat: &Vec<char>) -> (r: bool)
    requires
        a <= b <= s@.len(),
    ensures
        r == contains(lowercase(s@.subrange(a as int, b as int)), pat@),
{
    let ghost l = lowercase(s@.subrange(a as int, b as int));
    let m = pat.len();
    if m == 0 {
        proof {
            assert(l.subrange(0, 0) =~= pat@);
            assert(crate::text::occurs_at(l, pat@, 0));
        }
        return true;
    }
    if m > b - a {
        proof {
            assert forall|i: int| !crate::text::occurs_at(l, pat@, i) by {}
        }
        return false;
    }
    let last = b - a - m;
    let mut p: usize = 0;
    while p <= last
        invariant
            a <= b <= s@.len(),
            m == pat@.len(),
            m > 0,
            last == b - a - m,
            l == lowercase(s@.subrange(a as int, b as int)),
            forall|q: int| 0 <= q < p ==> !crate::text::occurs_at(l, pat@, q),
        decreases last + 1 - p,
    {
        let mut t: usize = 0;
        let mut same = true;
        while t < m
            invariant
                a <= b <= s@.len(),
                m == pat@.len(),
                p <= last,
                last == b - a - m,
                t <= m,
                l == lowercase(s@.subrange(a as int, b as int)),
                same ==> forall|u: int| 0 <= u < t ==> l[p + u] == pat@[u],
                !same ==> !crate::text::occurs_at(l, pat@, p as int),
            decreases m - t,
        {
            if same && lower_char(s[a + p + t]) != pat[t] {
                proof {
                    assert(l[p + t] == ascii_lower(s@[a + p + t]));
                    assert(l.subrange(p as int, p + m)[t as int] != pat@[t as int]);
                }
                same = false;
            } else if same {
                proof {
                    assert(l[p + t] == ascii_lower(s@[a + p + t]));
                }
            }
            t = t + 1;
        }
        if same {
            proof {
                assert(l.subrange(p as int, p + m) =~= pat@);
                assert(crate::text::occurs_at(l, pat@, p as int));
            }
            return true;
        }
        p = p + 1;
    }
    proof {
        assert forall|i: int| !crate::text::occurs_at(l, pat@, i) by {
            if 0 <= i && i < p {
            }
        }
    }
    false
}

/// The error keywords, as character vectors.
fn keyword_chars() -> (kws: Vec<Vec<char>>)
    ensures
        kws@.len() == 4,
        forall|k: int| 0 <= k < 4 ==> (#[trigger] kws@[k])@ == error_keywords()[k],
{
    proof {
        reveal_strlit("error:");
        reveal_strlit("cannot");
        reveal_strlit("failed");
        reveal_strlit("fatal");
    }
    let mut kws: Vec<Vec<char>> = Vec::new();
    kws.push(chars_of("error:"));
    kws.push(chars_of("cannot"));
    kws.push(chars_of("failed"));
    kws.push(chars_of("fatal"));
    kws
}

fn line_mentions_error(s: &Vec<char>, a: usize, b: usize, kws: &Vec<Vec<char>>) -> (r: bool)
    requires
        a <= b <= s@.len(),
        kws@.len() == 4,
        forall|k: int| 0 <= k < 4 ==> (#[trigger] kws@[k])@ == error_keywords()[k],
    ensures
        r == mentions_error(s@.subrange(a as int, b as int)),
{
    let ghost l = s@.subrange(a as int, b as int);
    let mut k: usize = 0;
    while k < 4
        invariant
            a <= b <= s@.len(),
            kws@.len() == 4,
            forall|j: int| 0 <= j < 4 ==> (#[trigger] kws@[j])@ == error_keywords()[j],
            l == s@.subrange(a as int, b as int),
            k <= 4,
            forall|j: int| 0 <= j < k ==> !contains(lowercase(l), #[trigger] error_keywords()[j]),
        decreases 4 - k,
    {
        if contains_lowered(s, a, b, &kws[k]) {
            return true;
        }
        k = k + 1;
    }
    false
}

fn line_is_blank(s: &Vec<char>, a: usize, b: usize) -> (r: bool)
    requires
        a <= b <= s@.len(),
    ensures
        r == is_blank(s@.subrange(a as int, b as int)),
{
    let ghost l = s@.subrange(a as int, b as int);
    let mut i = a;
    while i < b
        invariant
            a <= i <= b <= s@.len(),
            l == s@.subrange(a as int, b as int),
            forall|j: int| 0 <= j < i - a ==> is_white_space(#[trigger] l[j]),
        decreases b - i,
    {
        if !white_space(s[i]) {
            assert(!is_white_space(l[i - a]));
            return false;
        }
        i = i + 1;
    }
    true
}

/// Picks the most relevant error line from VLC's error output: the most
/// recent line that mentions an error keyword (`error:`, `cannot`,
/// `failed`, `fatal`, in any letter case), else the most recent non-blank
/// line, quoted behind `"VLC error: "`.
pub fn last_stderr_error(content: &str) -> (r: Option<String>)
    ensures
        r matches Some(m) ==> stderr_error_text(content@) == Some(m@),
        r is None ==> stderr_error_text(content@) is None,
{
    let s = chars_of(content);
    let rs = line_ranges(&s);
    let ghost ls = lines(s@);
    let kws = keyword_chars();
    let mut i = rs.len();
    assert(ls.take(i as int) =~= ls);
    while i > 0
        invariant
            s@ == content@,
            ls == lines(s@),
            range_texts(s@, rs@) == ls,
            ranges_within(rs@, s@.len()),
            kws@.len() == 4,
            forall|k: int| 0 <= k < 4 ==> (#[trigger] kws@[k])@ == error_keywords()[k],
            i <= rs@.len(),
            last_error_line(ls) == last_error_line(ls.take(i as int)),
        decreases i,
    {
        let (a, b) = rs[i - 1];
        assert(ls[i - 1] == s@.subrange(a as int, b as int));
        assert(ls.take(i as int).drop_last() =~= ls.take(i - 1));
        if line_mentions_error(&s, a, b, &kws) {
            let mut m = String::from_str("VLC error: ");
            m.append(content.substring_char(a, b));
            return Some(m);
        }
        i = i - 1;
    }
    assert(ls.take(0) =~= Seq::<Seq<char>>::empty());
    let mut i = rs.len();
    assert(ls.take(i as int) =~= ls);
    while i > 0
        invariant
            s@ == content@,
            ls == lines(s@),
            range_texts(s@, rs@) == ls,
            ranges_within(rs@, s@.len()),
            i <= rs@.len(),
            last_error_line(ls) is None,
            last_nonblank_line(ls) == last_nonblank_line(ls.take(i as int)),
        decreases i,
    {
        let (a, b) = rs[i - 1];
        assert(ls[i - 1] == s@.subrange(a as int, b as int));
        assert(ls.take(i as int).drop_last() =~= ls.take(i - 1));
        if !line_is_blank(&s, a, b) {
            let mut m = String::from_str("VLC error: ");
            m.append(content.substring_char(a, b));
            return Some(m);
        }
        i = i - 1;
    }
    assert(ls.take(0) =~= Seq::<Seq<char>>::empty());
    None
}

} // verus!
