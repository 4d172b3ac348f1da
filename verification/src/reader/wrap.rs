//! Greedy wrapping of plain and marked-up text into page lines.

use crate::reader::span::LineSpan;
use vstd::prelude::*;

verus! {

/// Characters on a line of the fixed-width font.
pub const CHARS_PER_LINE: usize = 51;

/// Most lines on a page.
pub const LINES_PER_PAGE: usize = 37;

/// Bytes of the page buffer.
pub const PAGE_BUF: usize = 8192;

// ── fixed-width text ──────────────────────────────────────────────

/// `end` without the carriage returns before it.
pub open spec fn trimmed(buf: Seq<u8>, start: int, end: int) -> int
    decreases end - start,
{
    if end > start && buf[end - 1] == 0x0D {
        trimmed(buf, start, end - 1)
    } else {
        end
    }
}

/// Drop trailing carriage returns from a line.
pub fn trim_trailing_cr(buf: &[u8], start: usize, end: usize) -> (e: usize)
    requires
        start <= end <= buf@.len(),
    ensures
        e == trimmed(buf@, start as int, end as int),
        start <= e <= end,
{
    let mut e: usize = end;
    while e > start && buf[e - 1] == 0x0D
        invariant
            start <= e <= end <= buf@.len(),
            trimmed(buf@, start as int, end as int) == trimmed(buf@, start as int, e as int),
        decreases e - start,
    {
        e = e - 1;
    }
    e
}

pub open spec fn plain_span(start: int, end: int) -> LineSpan {
    LineSpan {
        start: start as u16,
        len: (end - start) as u16,
        flags: 0,
        indent: 0,
        align: 0,
        extra: 0,
    }
}

/// `lines` with one more, as long as the page has a slot for it.
pub open spec fn pushed(lines: Seq<LineSpan>, start: int, end: int) -> Seq<LineSpan> {
    if lines.len() < LINES_PER_PAGE {
        lines.push(plain_span(start, end))
    } else {
        lines
    }
}

/// Text that is being wrapped: the lines so far, where the open line began,
/// its column, and whether a leading blank line was skipped.
pub struct Mono {
    pub lines: Seq<LineSpan>,
    pub start: int,
    pub col: int,
    pub skipped: bool,
}

/// What byte `i` does.
pub open spec fn mono_step(buf: Seq<u8>, m: Mono, i: int) -> Mono {
    let b = buf[i];
    if b == 0x0D {
        m
    } else if b == 0x0A {
        let end = trimmed(buf, m.start, i);
        if m.lines.len() == 0 && end == m.start && !m.skipped {
            Mono { start: i + 1, col: 0, skipped: true, ..m }
        } else {
            Mono { lines: pushed(m.lines, m.start, end), start: i + 1, col: 0, ..m }
        }
    } else if m.col + 1 >= CHARS_PER_LINE {
        Mono { lines: pushed(m.lines, m.start, i + 1), start: i + 1, col: 0, ..m }
    } else {
        Mono { col: m.col + 1, ..m }
    }
}

/// The lines of `buf[i..n]` behind `m`, and the byte the next page starts at.
pub open spec fn mono_run(buf: Seq<u8>, n: int, max: int, m: Mono, i: int) -> (Seq<LineSpan>, int)
    decreases n - i,
{
    if i >= n {
        if m.start < n && m.lines.len() < max {
            (pushed(m.lines, m.start, trimmed(buf, m.start, n)), n)
        } else {
            (m.lines, n)
        }
    } else {
        let after = mono_step(buf, m, i);
        if after.start == i + 1 && after.skipped == m.skipped && after.lines.len() >= max {
            (after.lines, after.start)
        } else {
            mono_run(buf, n, max, after, i + 1)
        }
    }
}

pub open spec fn mono_wrap(buf: Seq<u8>, n: int, max: int) -> (Seq<LineSpan>, int) {
    mono_run(buf, n, max, Mono { lines: Seq::empty(), start: 0, col: 0, skipped: false }, 0)
}

fn push_line(lines: &mut Vec<LineSpan>, start: usize, end: usize)
    requires
        start <= end <= 65535,
    ensures
        final(lines)@ == pushed(old(lines)@, start as int, end as int),
{
    if lines.len() < LINES_PER_PAGE {
        lines.push(
            LineSpan {
                start: start as u16,
                len: (end - start) as u16,
                flags: 0,
                indent: 0,
                align: LineSpan::ALIGN_DEFAULT,
                extra: 0,
            },
        );
    }
}

/// Wrap `buf[..n]` at a fixed number of characters into at most `max` lines:
/// the lines, and the byte the next page starts at. One blank line at the top
/// of the page is skipped.
pub fn wrap_monospace(buf: &[u8], n: usize, max: usize) -> (r: (Vec<LineSpan>, usize))
    requires
        n <= buf@.len(),
        n <= 65535,
    ensures
        (r.0@, r.1 as int) == mono_wrap(buf@, n as int, max as int),
{
    let mut lines: Vec<LineSpan> = Vec::new();
    let mut col: usize = 0;
    let mut start: usize = 0;
    let mut skipped: bool = false;
    let mut i: usize = 0;
    proof {
        assert(lines@ =~= Seq::<LineSpan>::empty());
    }
    while i < n
        invariant
            start <= i <= n <= 65535,
            n <= buf@.len(),
            col < CHARS_PER_LINE,
            mono_run(
                buf@,
                n as int,
                max as int,
                (Mono { lines: lines@, start: start as int, col: col as int, skipped }),
                i as int,
            ) == mono_wrap(buf@, n as int, max as int),
        decreases n - i,
    {
        let b: u8 = buf[i];
        if b == 0x0A {
            let end: usize = trim_trailing_cr(buf, start, i);
            if lines.len() == 0 && end == start && !skipped {
                skipped = true;
                start = i + 1;
                col = 0;
            } else {
                push_line(&mut lines, start, end);
                start = i + 1;
                col = 0;
                if lines.len() >= max {
                    return (lines, start);
                }
            }
        } else if b != 0x0D {
            col = col + 1;
            if col >= CHARS_PER_LINE {
                push_line(&mut lines, start, i + 1);
                start = i + 1;
                col = 0;
                if lines.len() >= max {
                    return (lines, start);
                }
            }
        }
        i = i + 1;
    }
    if start < n && lines.len() < max {
        let end: usize = trim_trailing_cr(buf, start, n);
        push_line(&mut lines, start, end);
    }
    (lines, n)
}

/// Bytes of the text that the open state still speaks of.
pub open spec fn mono_sound(m: Mono, i: int) -> bool {
    &&& 0 <= m.start <= i
    &&& forall|k: int|
        0 <= k < m.lines.len() ==> (#[trigger] m.lines[k]).start + m.lines[k].len <= m.start
    &&& forall|j: int, k: int|
        0 <= j < k < m.lines.len() ==> (#[trigger] m.lines[j]).start + m.lines[j].len <= (
        #[trigger] m.lines[k]).start
}

proof fn lemma_trimmed(buf: Seq<u8>, start: int, end: int)
    requires
        start <= end,
    ensures
        start <= trimmed(buf, start, end) <= end,
    decreases end - start,
{
    if end > start && buf[end - 1] == 0x0D {
        lemma_trimmed(buf, start, end - 1);
    }
}

proof fn lemma_mono_run(buf: Seq<u8>, n: int, max: int, m: Mono, i: int)
    requires
        0 <= i <= n <= 65535,
        mono_sound(m, i),
    ensures
        ({
            let (lines, next) = mono_run(buf, n, max, m, i);
            &&& i <= next <= n
            &&& i < n ==> next > i
            &&& mono_sound(Mono { lines, start: next, col: 0, skipped: true }, n)
        }),
    decreases n - i,
{
    if i < n {
        lemma_trimmed(buf, m.start, i);
        let after = mono_step(buf, m, i);
        assert(mono_sound(after, i + 1));
        if !(after.start == i + 1 && after.skipped == m.skipped && after.lines.len() >= max) {
            lemma_mono_run(buf, n, max, after, i + 1);
        }
    } else {
        lemma_trimmed(buf, m.start, n);
    }
}

/// Wrapped lines lie in the text one behind the other, the next page starts
/// behind all of them and within the text, and wrapping any text consumes
/// some of it.
pub proof fn law_wrapped_lines_follow(buf: Seq<u8>, n: int, max: int)
    requires
        0 <= n <= 65535,
    ensures
        ({
            let (lines, next) = mono_wrap(buf, n, max);
            &&& 0 <= next <= n
            &&& n > 0 ==> next > 0
            &&& mono_sound(Mono { lines, start: next, col: 0, skipped: true }, n)
        }),
{
    lemma_mono_run(
        buf,
        n,
        max,
        Mono { lines: Seq::empty(), start: 0, col: 0, skipped: false },
        0,
    );
}

} // verus!
