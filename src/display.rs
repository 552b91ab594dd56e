//! Text shaping for display: mode labels, truncation to a column budget,
//! and word wrapping of the detail view.

use crate::filters::texts;
use crate::session::Mode;
use crate::text::{chars_of, is_white, is_white_space, push_char};
use crate::timeline::{pairs_view, TimelineEvent};
use vstd::prelude::*;
use vstd::string::*;

verus! {

/// The command-bar label of a mode.
pub open spec fn mode_text(mode: Mode) -> Seq<char> {
    match mode {
        Mode::Normal => " NORMAL "@,
        Mode::SearchInput => " SEARCH "@,
        Mode::ActionTypeFilter => " FILTER "@,
        Mode::TimeFilter => " TIME "@,
    }
}

/// The command-bar label of a mode, vim style.
pub fn mode_label(mode: Mode) -> (r: &'static str)
    ensures
        r@ == mode_text(mode),
{
    match mode {
        Mode::Normal => " NORMAL ",
        Mode::SearchInput => " SEARCH ",
        Mode::ActionTypeFilter => " FILTER ",
        Mode::TimeFilter => " TIME ",
    }
}

/// What unicode-width's `UnicodeWidthChar::width` gives for a character.
pub uninterp spec fn display_width(c: char) -> Option<usize>;

/// Relies on unicode-width's `UnicodeWidthChar::width`: the number of columns
/// a character takes, `None` for control characters; a function of the
/// character alone.
#[verifier::external_body]
fn char_width(c: char) -> (r: Option<usize>)
    ensures
        r == display_width(c),
{
    unicode_width::UnicodeWidthChar::width(c)
}

/// Columns a character takes, counting a control character as one.
pub open spec fn columns(c: char) -> int {
    match display_width(c) {
        Some(w) => w as int,
        None => 1,
    }
}

/// Columns taken by the first `n` characters of `s`.
pub open spec fn prefix_columns(s: Seq<char>, n: int) -> int
    decreases n,
{
    if n <= 0 || n > s.len() {
        0
    } else {
        prefix_columns(s, n - 1) + columns(s[n - 1])
    }
}

/// The first position from `i` on whose character takes the text past `max` columns.
pub open spec fn overflow_from(s: Seq<char>, max: int, i: int) -> Option<int>
    decreases s.len() - i,
{
    if i < 0 || i >= s.len() {
        None
    } else if prefix_columns(s, i + 1) > max {
        Some(i)
    } else {
        overflow_from(s, max, i + 1)
    }
}

/// `s` cut before the first character that takes it past `max` columns, with
/// an ellipsis in its place; `s` itself when it fits.
pub open spec fn truncated(s: Seq<char>, max: int) -> Seq<char> {
    match overflow_from(s, max, 0) {
        Some(i) => s.take(i) + seq!['\u{2026}'],
        None => s,
    }
}

/// `s` shortened to fit `max_len` display columns, ending in an ellipsis when cut.
pub fn truncate_for_display(s: &str, max_len: usize) -> (r: String)
    ensures
        r@ == truncated(s@, max_len as int),
{
    let v = chars_of(s);
    let mut w: usize = 0;
    let mut i: usize = 0;
    while i < v.len()
        invariant
            i <= v@.len(),
            v@ == s@,
            w == prefix_columns(v@, i as int),
            w <= max_len,
            overflow_from(v@, max_len as int, 0) == overflow_from(v@, max_len as int, i as int),
        decreases v@.len() - i,
    {
        let cw: usize = match char_width(v[i]) {
            Some(x) => x,
            None => 1,
        };
        if cw > max_len - w {
            let mut out = String::from_str(s.substring_char(0, i));
            proof {
                reveal_strlit("\u{2026}");
            }
            out.append("\u{2026}");
            assert(out@ =~= truncated(s@, max_len as int));
            return out;
        }
        w = w + cw;
        i += 1;
    }
    String::from_str(s)
}

/// Bytes that a character takes in UTF-8.
pub open spec fn utf8_len(c: char) -> int {
    let u = c as u32;
    if u < 0x80 {
        1
    } else if u < 0x800 {
        2
    } else if u < 0x10000 {
        3
    } else {
        4
    }
}

/// Bytes that a text takes in UTF-8.
pub open spec fn byte_len(s: Seq<char>) -> int
    decreases s.len(),
{
    if s.len() == 0 {
        0
    } else {
        byte_len(s.drop_last()) + utf8_len(s.last())
    }
}

fn char_bytes(c: char) -> (r: u8)
    ensures
        r == utf8_len(c),
{
    let u = c as u32;
    if u < 0x80 {
        1
    } else if u < 0x800 {
        2
    } else if u < 0x10000 {
        3
    } else {
        4
    }
}

fn bytes_of(v: &Vec<char>) -> (r: u128)
    ensures
        r == byte_len(v@),
{
    let mut n: u128 = 0;
    let mut i: usize = 0;
    while i < v.len()
        invariant
            i <= v@.len(),
            n == byte_len(v@.take(i as int)),
            n <= 4 * i,
        decreases v@.len() - i,
    {
        assert(v@.take(i + 1).drop_last() =~= v@.take(i as int));
        n = n + char_bytes(v[i]) as u128;
        i += 1;
    }
    assert(v@.take(v@.len() as int) =~= v@);
    n
}

/// Lines finished so far, and the line being filled.
pub type Lines = (Seq<Seq<char>>, Seq<char>);

/// A word longer than the width, placed character by character on fresh
/// lines, a line being closed once it has reached the width.
pub open spec fn break_word(out: Seq<Seq<char>>, line: Seq<char>, w: Seq<char>, width: int) -> Lines
    decreases w.len(),
{
    if w.len() == 0 {
        (out, line)
    } else {
        let (o, l) = break_word(out, line, w.drop_last(), width);
        if byte_len(l) >= width {
            (o.push(l), seq![w.last()])
        } else {
            (o, l.push(w.last()))
        }
    }
}

/// One word placed greedily: on the current line after a space if it still
/// fits the width, else on a new line, broken up when it is longer than the width.
pub open spec fn place_word(out: Seq<Seq<char>>, line: Seq<char>, w: Seq<char>, width: int) -> Lines {
    if w.len() == 0 {
        (out, line)
    } else {
        let trial = if line.len() == 0 {
            w
        } else {
            line + seq![' '] + w
        };
        if byte_len(trial) <= width {
            (out, trial)
        } else {
            let o1 = if line.len() > 0 {
                out.push(line)
            } else {
                out
            };
            if byte_len(w) > width {
                break_word(o1, Seq::empty(), w, width)
            } else {
                (o1, w)
            }
        }
    }
}

/// The state after the first `n` characters: finished lines, the current
/// line, and the word being read.
pub open spec fn wrap_prefix(s: Seq<char>, width: int, n: int) -> (Seq<Seq<char>>, Seq<char>, Seq<char>)
    decreases n,
{
    if n <= 0 || n > s.len() {
        (Seq::empty(), Seq::empty(), Seq::empty())
    } else {
        let (o, l, w) = wrap_prefix(s, width, n - 1);
        if is_white(s[n - 1]) {
            let (o2, l2) = place_word(o, l, w, width);
            (o2, l2, Seq::empty())
        } else {
            (o, l, w.push(s[n - 1]))
        }
    }
}

/// `s` wrapped greedily at `width` bytes, words joined by single spaces;
/// `s` itself as the only line when the width is zero or nothing is produced.
pub open spec fn wrapped(s: Seq<char>, width: int) -> Seq<Seq<char>> {
    if width == 0 {
        seq![s]
    } else {
        let (o, l, w) = wrap_prefix(s, width, s.len() as int);
        let (o2, l2) = place_word(o, l, w, width);
        let o3 = if l2.len() > 0 {
            o2.push(l2)
        } else {
            o2
        };
        if o3.len() == 0 {
            seq![s]
        } else {
            o3
        }
    }
}

/// A line that fits the width: at most `width` bytes, or a piece of a word
/// longer than the width, closed as soon as it reached the width, so that it
/// is under the width without its last character.
pub open spec fn line_fits(l: Seq<char>, width: int) -> bool {
    byte_len(l) <= width || (l.len() > 0 && byte_len(l.drop_last()) < width)
}

/// Every line fits the width.
pub open spec fn lines_fit(ls: Seq<Seq<char>>, width: int) -> bool {
    forall|i: int| 0 <= i < ls.len() ==> line_fits(#[trigger] ls[i], width)
}

/// The non-whitespace characters of `s`, in order.
pub open spec fn solid(s: Seq<char>) -> Seq<char>
    decreases s.len(),
{
    if s.len() == 0 {
        Seq::empty()
    } else if is_white(s.last()) {
        solid(s.drop_last())
    } else {
        solid(s.drop_last()).push(s.last())
    }
}

proof fn lemma_solid_add(a: Seq<char>, b: Seq<char>)
    ensures
        solid(a + b) == solid(a) + solid(b),
    decreases b.len(),
{
    if b.len() == 0 {
        assert(a + b =~= a);
        assert(solid(a) + solid(b) =~= solid(a));
    } else {
        lemma_solid_add(a, b.drop_last());
        assert((a + b).drop_last() =~= a + b.drop_last());
        assert((a + b).last() == b.last());
        if !is_white(b.last()) {
            assert(solid(a) + solid(b.drop_last()).push(b.last()) =~= (solid(a) + solid(
                b.drop_last(),
            )).push(b.last()));
        }
    }
}

proof fn lemma_solid_one(c: char)
    ensures
        solid(seq![c]) == (if is_white(c) {
            Seq::<char>::empty()
        } else {
            seq![c]
        }),
{
    assert(seq![c].drop_last() =~= Seq::<char>::empty());
    assert(seq![c].last() == c);
    assert(solid(Seq::<char>::empty()) == Seq::<char>::empty());
    assert(Seq::<char>::empty().push(c) =~= seq![c]);
}

proof fn lemma_solid_joined_push(ls: Seq<Seq<char>>, l: Seq<char>)
    ensures
        solid(joined_lines(ls.push(l))) == solid(joined_lines(ls)) + solid(l),
{
    assert(ls.push(l).drop_last() =~= ls);
    lemma_solid_add(joined_lines(ls) + l, seq!['\n']);
    lemma_solid_add(joined_lines(ls), l);
    lemma_solid_one('\n');
    assert(solid(joined_lines(ls)) + solid(l) + Seq::<char>::empty() =~= solid(joined_lines(ls))
        + solid(l));
}

proof fn lemma_byte_len_one(c: char)
    ensures
        byte_len(seq![c]) == utf8_len(c),
{
    assert(seq![c].drop_last() =~= Seq::<char>::empty());
    assert(seq![c].last() == c);
    assert(byte_len(Seq::<char>::empty()) == 0);
}

proof fn lemma_break_word(out: Seq<Seq<char>>, line: Seq<char>, w: Seq<char>, width: int)
    requires
        width > 0,
        lines_fit(out, width),
        line_fits(line, width),
    ensures
        lines_fit(break_word(out, line, w, width).0, width),
        line_fits(break_word(out, line, w, width).1, width),
        solid(joined_lines(break_word(out, line, w, width).0)) + solid(break_word(out, line, w, width).1)
            == solid(joined_lines(out)) + solid(line) + solid(w),
    decreases w.len(),
{
    if w.len() == 0 {
        assert(solid(joined_lines(out)) + solid(line) + solid(w) =~= solid(joined_lines(out)) + solid(line));
    } else {
        lemma_break_word(out, line, w.drop_last(), width);
        let (o, l) = break_word(out, line, w.drop_last(), width);
        let c = w.last();
        lemma_solid_one(c);
        lemma_solid_add(w.drop_last(), seq![c]);
        assert(w.drop_last() + seq![c] =~= w);
        if byte_len(l) >= width {
            lemma_solid_joined_push(o, l);
            lemma_byte_len_one(c);
            assert(seq![c].drop_last() =~= Seq::<char>::empty());
            assert(lines_fit(o.push(l), width)) by {
                assert forall|i: int| 0 <= i < o.push(l).len() implies line_fits(#[trigger] o.push(l)[i], width) by {
                    if i < o.len() {
                        assert(o.push(l)[i] == o[i]);
                    }
                }
            }
            assert(solid(joined_lines(o)) + solid(l) + solid(seq![c]) =~= solid(joined_lines(out)) + solid(line)
                + solid(w));
        } else {
            assert(l.push(c).drop_last() =~= l);
            lemma_solid_add(l, seq![c]);
            assert(l + seq![c] =~= l.push(c));
            assert(solid(l.push(c)) == solid(l) + solid(seq![c]));
            assert(solid(w) == solid(w.drop_last()) + solid(seq![c]));
            let jo = solid(joined_lines(o));
            let jout = solid(joined_lines(out));
            let sc = solid(seq![c]);
            assert(jo + solid(l) == jout + solid(line) + solid(w.drop_last()));
            assert(jo + (solid(l) + sc) =~= (jo + solid(l)) + sc);
            assert((jout + solid(line) + solid(w.drop_last())) + sc =~= jout + solid(line) + (solid(
                w.drop_last(),
            ) + sc));
        }
    }
}

proof fn lemma_place_word(out: Seq<Seq<char>>, line: Seq<char>, w: Seq<char>, width: int)
    requires
        width > 0,
        lines_fit(out, width),
        line_fits(line, width),
    ensures
        lines_fit(place_word(out, line, w, width).0, width),
        line_fits(place_word(out, line, w, width).1, width),
        solid(joined_lines(place_word(out, line, w, width).0)) + solid(place_word(out, line, w, width).1)
            == solid(joined_lines(out)) + solid(line) + solid(w),
{
    if w.len() == 0 {
        assert(solid(w) =~= Seq::<char>::empty());
        assert(solid(joined_lines(out)) + solid(line) + solid(w) =~= solid(joined_lines(out)) + solid(line));
    } else {
        let trial = if line.len() == 0 {
            w
        } else {
            line + seq![' '] + w
        };
        if line.len() == 0 {
            assert(solid(line) =~= Seq::<char>::empty());
            assert(solid(joined_lines(out)) + solid(line) + solid(w) =~= solid(joined_lines(out)) + solid(w));
        } else {
            lemma_solid_add(line + seq![' '], w);
            lemma_solid_add(line, seq![' ']);
            lemma_solid_one(' ');
            assert(solid(line) + Seq::<char>::empty() =~= solid(line));
            assert(solid(joined_lines(out)) + (solid(line) + solid(w)) =~= solid(joined_lines(out)) + solid(line)
                + solid(w));
        }
        if byte_len(trial) <= width {
        } else {
            let o1 = if line.len() > 0 {
                out.push(line)
            } else {
                out
            };
            if line.len() > 0 {
                lemma_solid_joined_push(out, line);
                assert forall|i: int| 0 <= i < o1.len() implies line_fits(#[trigger] o1[i], width) by {
                    if i < out.len() {
                        assert(o1[i] == out[i]);
                    }
                }
            } else {
                assert(solid(line) =~= Seq::<char>::empty());
                assert(solid(joined_lines(out)) + solid(line) =~= solid(joined_lines(out)));
            }
            if byte_len(w) > width {
                assert(byte_len(Seq::<char>::empty()) == 0);
                lemma_break_word(o1, Seq::empty(), w, width);
                assert(solid(Seq::<char>::empty()) =~= Seq::<char>::empty());
                assert(solid(joined_lines(o1)) + solid(Seq::<char>::empty()) + solid(w) =~= solid(
                    joined_lines(o1),
                ) + solid(w));
            }
        }
    }
}

proof fn lemma_wrap_prefix(s: Seq<char>, width: int, n: int)
    requires
        width > 0,
        0 <= n <= s.len(),
    ensures
        lines_fit(wrap_prefix(s, width, n).0, width),
        line_fits(wrap_prefix(s, width, n).1, width),
        solid(joined_lines(wrap_prefix(s, width, n).0)) + solid(wrap_prefix(s, width, n).1) + solid(
            wrap_prefix(s, width, n).2,
        ) == solid(s.take(n)),
    decreases n,
{
    if n == 0 {
        assert(s.take(0) =~= Seq::<char>::empty());
        assert(joined_lines(Seq::<Seq<char>>::empty()) =~= Seq::<char>::empty());
        assert(Seq::<char>::empty() + Seq::<char>::empty() + Seq::<char>::empty() =~= Seq::<char>::empty());
        assert(byte_len(Seq::<char>::empty()) == 0);
    } else {
        lemma_wrap_prefix(s, width, n - 1);
        let (o, l, w) = wrap_prefix(s, width, n - 1);
        let c = s[n - 1];
        assert(s.take(n).drop_last() =~= s.take(n - 1));
        assert(s.take(n).last() == c);
        if is_white(c) {
            lemma_place_word(o, l, w, width);
            let (o2, l2) = place_word(o, l, w, width);
            assert(solid(Seq::<char>::empty()) =~= Seq::<char>::empty());
            assert(solid(joined_lines(o2)) + solid(l2) + solid(Seq::<char>::empty()) =~= solid(joined_lines(o2))
                + solid(l2));
        } else {
            assert(w.push(c).drop_last() =~= w);
            assert(solid(joined_lines(o)) + solid(l) + solid(w).push(c) =~= (solid(joined_lines(o)) + solid(l)
                + solid(w)).push(c));
        }
    }
}

/// What wrapping keeps: the non-whitespace characters of `s`, in order, and
/// (for a positive width, unless `s` has none) lines that fit the width.
pub proof fn lemma_wrapped(s: Seq<char>, width: int)
    requires
        width >= 0,
    ensures
        solid(joined_lines(wrapped(s, width))) == solid(s),
        width > 0 && solid(s).len() > 0 ==> lines_fit(wrapped(s, width), width),
{
    lemma_solid_joined_push(Seq::empty(), s);
    assert(Seq::<Seq<char>>::empty().push(s) =~= seq![s]);
    assert(joined_lines(Seq::<Seq<char>>::empty()) =~= Seq::<char>::empty());
    assert(solid(Seq::<char>::empty()) =~= Seq::<char>::empty());
    assert(Seq::<char>::empty() + solid(s) =~= solid(s));
    if width > 0 {
        lemma_wrap_prefix(s, width, s.len() as int);
        assert(s.take(s.len() as int) =~= s);
        let (o, l, w) = wrap_prefix(s, width, s.len() as int);
        lemma_place_word(o, l, w, width);
        let (o2, l2) = place_word(o, l, w, width);
        if l2.len() > 0 {
            lemma_solid_joined_push(o2, l2);
            assert forall|i: int| 0 <= i < o2.push(l2).len() implies line_fits(#[trigger] o2.push(l2)[i], width) by {
                if i < o2.len() {
                    assert(o2.push(l2)[i] == o2[i]);
                }
            }
        } else {
            assert(solid(l2) =~= Seq::<char>::empty());
            assert(solid(joined_lines(o2)) + solid(l2) =~= solid(joined_lines(o2)));
        }
    }
}

fn break_word_exec(out: &mut Vec<Vec<char>>, w: &Vec<char>, width: usize) -> (line: Vec<char>)
    ensures
        (final(out)@.map_values(|v: Vec<char>| v@), line@) == break_word(
            old(out)@.map_values(|v: Vec<char>| v@),
            Seq::empty(),
            w@,
            width as int,
        ),
{
    let ghost o0 = out@.map_values(|v: Vec<char>| v@);
    let mut line: Vec<char> = Vec::new();
    let mut k: usize = 0;
    while k < w.len()
        invariant
            k <= w@.len(),
            (out@.map_values(|v: Vec<char>| v@), line@) == break_word(o0, Seq::empty(), w@.take(k as int), width as int),
        decreases w@.len() - k,
    {
        assert(w@.take(k + 1).drop_last() =~= w@.take(k as int));
        let ghost before = out@.map_values(|v: Vec<char>| v@);
        if bytes_of(&line) >= width as u128 {
            let done = line;
            out.push(done);
            line = Vec::new();
            line.push(w[k]);
            assert(out@.map_values(|v: Vec<char>| v@) =~= before.push(done@));
            assert(line@ =~= seq![w@.take(k + 1).last()]);
        } else {
            line.push(w[k]);
            assert(out@.map_values(|v: Vec<char>| v@) =~= before);
        }
        k += 1;
    }
    assert(w@.take(w@.len() as int) =~= w@);
    line
}

fn place_word_exec(out: &mut Vec<Vec<char>>, line: Vec<char>, w: &Vec<char>, width: usize) -> (r: Vec<char>)
    ensures
        (final(out)@.map_values(|v: Vec<char>| v@), r@) == place_word(
            old(out)@.map_values(|v: Vec<char>| v@),
            line@,
            w@,
            width as int,
        ),
{
    if w.len() == 0 {
        return line;
    }
    let mut trial: Vec<char> = Vec::new();
    if line.len() > 0 {
        let mut i: usize = 0;
        while i < line.len()
            invariant
                i <= line@.len(),
                trial@ == line@.take(i as int),
            decreases line@.len() - i,
        {
            trial.push(line[i]);
            i += 1;
            assert(trial@ =~= line@.take(i as int));
        }
        trial.push(' ');
    }
    let ghost base = trial@;
    let mut j: usize = 0;
    while j < w.len()
        invariant
            j <= w@.len(),
            trial@ == base + w@.take(j as int),
        decreases w@.len() - j,
    {
        trial.push(w[j]);
        j += 1;
        assert(trial@ =~= base + w@.take(j as int));
    }
    proof {
        assert(w@.take(w@.len() as int) =~= w@);
        if line@.len() == 0 {
            assert(trial@ =~= w@);
        } else {
            assert(line@.take(line@.len() as int) =~= line@);
            assert(trial@ =~= line@ + seq![' '] + w@);
        }
    }
    if bytes_of(&trial) <= width as u128 {
        return trial;
    }
    let ghost o0 = out@.map_values(|v: Vec<char>| v@);
    if line.len() > 0 {
        let ghost l = line@;
        out.push(line);
        assert(out@.map_values(|v: Vec<char>| v@) =~= o0.push(l));
    }
    if bytes_of(w) > width as u128 {
        break_word_exec(out, w, width)
    } else {
        let mut copy: Vec<char> = Vec::new();
        let mut k: usize = 0;
        while k < w.len()
            invariant
                k <= w@.len(),
                copy@ == w@.take(k as int),
            decreases w@.len() - k,
        {
            copy.push(w[k]);
            k += 1;
            assert(copy@ =~= w@.take(k as int));
        }
        assert(w@.take(w@.len() as int) =~= w@);
        copy
    }
}

fn string_from(v: &Vec<char>) -> (r: String)
    ensures
        r@ == v@,
{
    let mut s = String::new();
    let mut i: usize = 0;
    while i < v.len()
        invariant
            i <= v@.len(),
            s@ == v@.take(i as int),
        decreases v@.len() - i,
    {
        push_char(&mut s, v[i]);
        i += 1;
        assert(s@ =~= v@.take(i as int));
    }
    assert(v@.take(v@.len() as int) =~= v@);
    s
}

/// Splits `s` into lines of at most `width` bytes, breaking at whitespace and
/// joining words with single spaces; a word longer than the width is broken
/// across lines, a piece being closed once it reaches the width (so its last
/// character may cross it). The non-whitespace characters keep their order.
/// A width of zero gives `s` unchanged.
pub fn wrap_at_width(s: &str, width: usize) -> (r: Vec<String>)
    ensures
        texts(r@) == wrapped(s@, width as int),
        solid(joined_lines(texts(r@))) == solid(s@),
        width > 0 && solid(s@).len() > 0 ==> lines_fit(texts(r@), width as int),
{
    proof {
        lemma_wrapped(s@, width as int);
    }
    let chars = chars_of(s);
    if width == 0 {
        let mut one: Vec<String> = Vec::new();
        one.push(String::from_str(s));
        assert(texts(one@) =~= seq![s@]);
        return one;
    }
    let mut out: Vec<Vec<char>> = Vec::new();
    let mut line: Vec<char> = Vec::new();
    let mut word: Vec<char> = Vec::new();
    let mut i: usize = 0;
    assert(out@.map_values(|v: Vec<char>| v@) =~= Seq::<Seq<char>>::empty());
    while i < chars.len()
        invariant
            i <= chars@.len(),
            chars@ == s@,
            width > 0,
            (out@.map_values(|v: Vec<char>| v@), line@, word@) == wrap_prefix(s@, width as int, i as int),
        decreases chars@.len() - i,
    {
        let c = chars[i];
        if is_white_space(c) {
            line = place_word_exec(&mut out, line, &word, width);
            word = Vec::new();
        } else {
            word.push(c);
        }
        i += 1;
    }
    line = place_word_exec(&mut out, line, &word, width);
    if line.len() > 0 {
        let ghost before = out@.map_values(|v: Vec<char>| v@);
        let ghost l = line@;
        out.push(line);
        assert(out@.map_values(|v: Vec<char>| v@) =~= before.push(l));
    }
    if out.len() == 0 {
        let mut one: Vec<String> = Vec::new();
        one.push(String::from_str(s));
        assert(texts(one@) =~= seq![s@]);
        return one;
    }
    let ghost lv = out@.map_values(|v: Vec<char>| v@);
    let mut r: Vec<String> = Vec::new();
    let mut k: usize = 0;
    while k < out.len()
        invariant
            k <= out@.len(),
            lv.len() == out@.len(),
            forall|j: int| 0 <= j < out@.len() ==> #[trigger] lv[j] == out@[j]@,
            texts(r@) == lv.take(k as int),
        decreases out@.len() - k,
    {
        let text = string_from(&out[k]);
        let ghost prev = r@;
        assert(text@ == lv[k as int]);
        r.push(text);
        assert(r@ == prev.push(text));
        assert(texts(prev).len() == k);
        assert(prev.len() == k);
        assert(r@.len() == k + 1);
        assert(texts(r@).len() == k + 1);
        assert forall|j: int| 0 <= j < k + 1 implies #[trigger] texts(r@)[j] == lv.take(k + 1)[j] by {
            if j < k {
                assert(r@[j] == prev[j]);
                assert(texts(prev)[j] == lv.take(k as int)[j]);
            }
        }
        k += 1;
        assert(texts(r@) =~= lv.take(k as int));
    }
    assert(lv.take(out@.len() as int) =~= lv);
    r
}

fn append_lines(out: &mut String, chunks: &Vec<String>)
    ensures
        final(out)@ == old(out)@ + joined_lines(texts(chunks@)),
{
    let ghost body = out@;
    let mut k: usize = 0;
    assert(body =~= body + joined_lines(texts(chunks@).take(0)));
    while k < chunks.len()
        invariant
            k <= chunks@.len(),
            out@ == body + joined_lines(texts(chunks@).take(k as int)),
        decreases chunks@.len() - k,
    {
        assert(texts(chunks@).take(k + 1).drop_last() =~= texts(chunks@).take(k as int));
        out.append(chunks[k].as_str());
        proof {
            reveal_strlit("\n");
        }
        out.append("\n");
        k += 1;
        assert(out@ =~= body + joined_lines(texts(chunks@).take(k as int)));
    }
    assert(texts(chunks@).take(chunks@.len() as int) =~= texts(chunks@));
}

/// The lines of `ls`, each ended by a newline.
pub open spec fn joined_lines(ls: Seq<Seq<char>>) -> Seq<char>
    decreases ls.len(),
{
    if ls.len() == 0 {
        Seq::empty()
    } else {
        joined_lines(ls.drop_last()) + ls.last() + seq!['\n']
    }
}

/// The detail pairs written as `label: value`, each wrapped at `width`.
pub open spec fn detail_body(pairs: Seq<(Seq<char>, Seq<char>)>, width: int) -> Seq<char>
    decreases pairs.len(),
{
    if pairs.len() == 0 {
        Seq::empty()
    } else {
        let p = pairs.last();
        detail_body(pairs.drop_last(), width) + joined_lines(wrapped(p.0 + ": "@ + p.1, width))
    }
}

/// The detail text of an event; `(no fields)` when it has none.
pub open spec fn detail_text(ev: TimelineEvent, width: int) -> Seq<char> {
    let body = detail_body(ev.detail_spec(), width);
    if body.len() == 0 {
        "(no fields)"@
    } else {
        body
    }
}

/// The detail view of an event: each non-empty field as `label: value`,
/// wrapped at `width`, one line per row.
pub fn detail_content(ev: &TimelineEvent, width: usize) -> (r: String)
    ensures
        r@ == detail_text(*ev, width as int),
{
    let lines = ev.detail_lines();
    let ghost pairs = pairs_view(lines@);
    assert(pairs == ev.detail_spec());
    let mut out = String::new();
    let mut i: usize = 0;
    while i < lines.len()
        invariant
            i <= lines@.len(),
            pairs == pairs_view(lines@),
            out@ == detail_body(pairs.take(i as int), width as int),
        decreases lines@.len() - i,
    {
        assert(pairs.take(i + 1).drop_last() =~= pairs.take(i as int));
        let mut full = String::from_str(lines[i].0.as_str());
        full.append(": ");
        full.append(lines[i].1.as_str());
        let chunks = wrap_at_width(full.as_str(), width);
        append_lines(&mut out, &chunks);
        i += 1;
    }
    assert(pairs.take(lines@.len() as int) =~= pairs);
    assert(pairs == ev.detail_spec());
    if out.as_str().unicode_len() == 0 {
        return String::from_str("(no fields)");
    }
    out
}

} // verus!
