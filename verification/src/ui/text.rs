//! Text metrics: the width of the widest line from the advance of each
//! character, and the height of a text from its number of lines.

use vstd::prelude::*;
use crate::geometry::max_i;

verus! {

/// `a + b`, held at `usize::MAX`.
pub open spec fn sat_add(a: int, b: int) -> int {
    if a + b > usize::MAX { usize::MAX as int } else { a + b }
}

/// The widest finished line and the width of the current line after the
/// first `n` characters of `text`, where `ws[i]` is the advance of `text[i]`.
/// A newline ends the current line; its own advance counts toward the next.
pub open spec fn width_scan(text: Seq<char>, ws: Seq<usize>, n: nat) -> (int, int)
    decreases n,
{
    if n == 0 {
        (0, 0)
    } else {
        let prev = width_scan(text, ws, (n - 1) as nat);
        let cut = if text[n - 1] == '\n' { (max_i(prev.0, prev.1), 0int) } else { prev };
        (cut.0, sat_add(cut.1, ws[n - 1] as int))
    }
}

/// The width of the widest line of `text`.
pub open spec fn spec_text_width(text: Seq<char>, ws: Seq<usize>) -> int {
    let p = width_scan(text, ws, text.len());
    max_i(p.0, p.1)
}

/// Whether a character ends a line.
pub open spec fn newline_pred() -> spec_fn(char) -> bool {
    |c: char| c == '\n'
}

/// The number of lines of `text`: none for the empty text, and a final
/// newline opens no line of its own.
pub open spec fn line_count(text: Seq<char>) -> nat {
    if text.len() == 0 {
        0
    } else {
        text.filter(newline_pred()).len() + (if text.last() == '\n' { 0nat } else { 1nat })
    }
}

/// The height of `text` in lines of `font_height`, held at `usize::MAX` and
/// cut to an `i32`.
pub open spec fn spec_text_height(text: Seq<char>, font_height: usize) -> i32 {
    (if line_count(text) * font_height > usize::MAX {
        usize::MAX as int
    } else {
        line_count(text) * font_height
    }) as i32
}

proof fn lemma_scan_bounds(text: Seq<char>, ws: Seq<usize>, n: nat)
    ensures
        0 <= width_scan(text, ws, n).0 <= usize::MAX,
        0 <= width_scan(text, ws, n).1 <= usize::MAX,
    decreases n,
{
    if n > 0 {
        lemma_scan_bounds(text, ws, (n - 1) as nat);
    }
}

/// The width of the widest line of `text`, as the UI metrics count it:
/// `widths[i]` is the advance of the `i`-th character, sums stop at `usize::MAX`,
/// and the result is cut to an `i32`.
pub fn measure_text_width(text: &str, widths: &Vec<usize>) -> (r: i32)
    requires
        widths@.len() == text@.len(),
    ensures
        r == spec_text_width(text@, widths@) as i32,
{
    let n = text.unicode_len();
    let mut res: usize = 0;
    let mut acc: usize = 0;
    let mut i: usize = 0;
    while i < n
        invariant
            i <= n,
            n == text@.len(),
            widths@.len() == n,
            (res as int, acc as int) == width_scan(text@, widths@, i as nat),
        decreases n - i,
    {
        let c = text.get_char(i);
        if c == '\n' {
            if acc > res {
                res = acc;
            }
            acc = 0;
        }
        acc = acc.saturating_add(widths[i]);
        i += 1;
    }
    if acc > res {
        res = acc;
    }
    res as i32
}

/// The number of lines of `text`.
pub fn count_lines(text: &str) -> (r: usize)
    ensures
        r == line_count(text@),
{
    let n = text.unicode_len();
    if n == 0 {
        return 0;
    }
    let ghost f = newline_pred();
    let mut newlines: usize = 0;
    let mut i: usize = 0;
    while i < n - 1
        invariant
            i <= n - 1,
            n == text@.len(),
            f == newline_pred(),
            newlines == text@.take(i as int).filter(f).len(),
            newlines <= i,
        decreases n - 1 - i,
    {
        let c = text.get_char(i);
        proof {
            assert(text@.take(i + 1) =~= text@.take(i as int).push(text@[i as int]));
            text@.take(i as int).lemma_filter_push(text@[i as int], f);
            assert(f(text@[i as int]) == (c == '\n'));
        }
        if c == '\n' {
            newlines += 1;
        }
        i += 1;
    }
    proof {
        assert(text@ =~= text@.take(n - 1).push(text@[n - 1]));
        text@.take(n - 1).lemma_filter_push(text@[n - 1], f);
        assert(text@.last() == text@[n - 1]);
    }
    newlines + 1
}

/// The height of `text` in lines of `font_height`, held at `usize::MAX` and
/// cut to an `i32`.
pub fn measure_text_height(text: &str, font_height: usize) -> (r: i32)
    ensures
        r == spec_text_height(text@, font_height),
{
    let lc = count_lines(text);
    let h: usize = match lc.checked_mul(font_height) {
        Some(v) => v,
        None => usize::MAX,
    };
    h as i32
}


/// One step of laying a text out in lines of words: the word that is the
/// range `start..end` of the text, or the end of a line.
pub enum TextTok {
    Word { start: usize, end: usize },
    LineEnd,
}

/// Where the line that starts at `p` ends: the first newline from `p` on,
/// or the end of `t`.
pub open spec fn line_end_at(t: Seq<char>, p: int) -> int
    decreases t.len() - p,
{
    if p >= t.len() || t[p] == '\n' {
        p
    } else {
        line_end_at(t, p + 1)
    }
}

/// The end of the line `p..e` without a carriage return just before `e`.
pub open spec fn line_stop_at(t: Seq<char>, p: int, e: int) -> int {
    if e > p && t[e - 1] == '\r' { e - 1 } else { e }
}

/// The first space of `t` from `p` on, before `le`; `le` where there is none.
pub open spec fn space_at(t: Seq<char>, p: int, le: int) -> int
    decreases le - p,
{
    if p >= le || t[p] == ' ' {
        p
    } else {
        space_at(t, p + 1, le)
    }
}

/// Where the word that starts at `p` ends: just after its space, or at `le`.
pub open spec fn word_end_at(t: Seq<char>, p: int, le: int) -> int {
    let s = space_at(t, p, le);
    if s < le { s + 1 } else { s }
}

/// The words of `p..le`, each with the spaces that end it.
pub open spec fn line_words(t: Seq<char>, p: int, le: int) -> Seq<TextTok>
    decreases le - p,
{
    if p >= le {
        Seq::empty()
    } else {
        let we = word_end_at(t, p, le);
        if we <= p || we > le {
            Seq::empty()
        } else {
            seq![TextTok::Word { start: p as usize, end: we as usize }] + line_words(t, we, le)
        }
    }
}

/// The steps of laying out `t` from `p` on: for each line (cut at newlines,
/// without a carriage return at its end, a final newline opening no line of
/// its own) its words, then the end of the line.
pub open spec fn text_tokens(t: Seq<char>, p: int) -> Seq<TextTok>
    decreases t.len() - p,
{
    if p >= t.len() {
        Seq::empty()
    } else {
        let e = line_end_at(t, p);
        let next = if e < t.len() { e + 1 } else { t.len() as int };
        if next <= p {
            Seq::empty()
        } else {
            line_words(t, p, line_stop_at(t, p, e)) + seq![TextTok::LineEnd] + text_tokens(t, next)
        }
    }
}

} // verus!
