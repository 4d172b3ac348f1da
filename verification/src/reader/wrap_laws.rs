//! What wrapping, measuring and justifying are for: words go on while they fit, lines
//! break at spaces, and pages break where they are asked to.

use crate::fonts;
use crate::layout::events;
use crate::layout::events::{Event, EventState};
use crate::layout::items;
use crate::layout::mark_laws;
use crate::layout::pipeline::FaceAdvance;
use crate::layout::scan::TextStyle;
use crate::markup::{BlockProps, Style};
use crate::reader::flow;
use crate::reader::flow::{FlowPage, OpenLine};
use crate::reader::measure;
use crate::reader::measure::LineMeasure;
use crate::reader::span::LineSpan;
use crate::reader::wrap;
use crate::reader::wrap::Mono;
use crate::utf8;
use vstd::prelude::*;

verus! {

// ── faces ─────────────────────────────────────────────────────────

/// The first three levels of heading have a face of their own and the others are
/// bold; bold text is bold, also when it is italic; italic text is italic; and all
/// other text is regular.
pub proof fn law_faces_follow_the_style(s: Style)
    ensures
        1 <= s.heading <= 3 ==> fonts::markup_face(s) == fonts::Style::Heading,
        s.heading >= 4 ==> fonts::markup_face(s) == fonts::Style::Bold,
        s.heading == 0 && s.bold ==> fonts::markup_face(s) == fonts::Style::Bold,
        s.heading == 0 && !s.bold && s.italic ==> fonts::markup_face(s) == fonts::Style::Italic,
        s.heading == 0 && !s.bold && !s.italic ==> fonts::markup_face(s) == fonts::Style::Regular,
{
}

// ── measuring ─────────────────────────────────────────────────────

/// The way of the pen over the first `k` letters of a word.
pub open spec fn letters_width(adv: FaceAdvance, word: Seq<u8>, face: fonts::Style, k: int) -> int
    decreases k,
{
    if k <= 0 {
        0
    } else {
        letters_width(adv, word, face, k - 1) + adv(
            if k == 1 {
                None
            } else {
                Some(word[k - 2] as char)
            },
            word[k - 1] as char,
            face,
        )
    }
}

/// A word of plain letters.
pub open spec fn is_word(word: Seq<u8>) -> bool {
    forall|i: int| 0 <= i < word.len() ==> 0x20 < #[trigger] word[i] < 0x80
}

proof fn lemma_letters(adv: FaceAdvance, word: Seq<u8>, face: fonts::Style, k: int)
    requires
        is_word(word),
        0 <= k <= word.len(),
    ensures
        measure::text_pen(
            adv,
            word,
            face,
            k,
            if k == 0 {
                None
            } else {
                Some(word[k - 1] as char)
            },
            letters_width(adv, word, face, k),
        ) == letters_width(adv, word, face, word.len() as int),
    decreases word.len() - k,
{
    if k < word.len() {
        assert(0x20 < word[k] < 0x80);
        assert(utf8::utf8_at(word, k) == (word[k] as int, 1int));
        assert((word[k] as int) as char == word[k] as char);
        lemma_letters(adv, word, face, k + 1);
    }
}

/// The width of a word is the way of the pen over its letters, each behind the one
/// before it, and never less than nothing. A space is as wide as the face says.
pub proof fn law_words_are_as_wide_as_their_letters(
    adv: FaceAdvance,
    word: Seq<u8>,
    face: fonts::Style,
)
    requires
        is_word(word),
    ensures
        ({
            let w = letters_width(adv, word, face, word.len() as int);
            measure::text_width(adv, word, face) == (if w < 0 {
                0
            } else {
                w
            })
        }),
        adv(None, ' ', face) >= 0 ==> measure::space_width(adv, face) == adv(None, ' ', face),
{
    lemma_letters(adv, word, face, 0);
}

// ── justified lines ───────────────────────────────────────────────

/// Justified text fills its column: a wrapped line of body text with two gaps or
/// more, whose spare is no more than two fifths of the column and three spaces to a
/// gap, gets all of it. Text that is not justified, the last line of a paragraph, a
/// heading and a line with an alignment of its own get none.
pub proof fn law_wrapped_lines_are_justified(
    text_alignment: u8,
    span: LineSpan,
    m: LineMeasure,
    avail: int,
    space_w: int,
)
    requires
        0 <= avail,
        0 <= space_w,
    ensures
        ({
            let (per, rest) = measure::justify(text_alignment, span, m, avail, space_w);
            let spare = avail - m.width;
            let body = span.flags / 4 % 2 == 0 && span.align % 4 == 0;
            let wrapped = span.flags / 16 % 4 == 2;
            &&& text_alignment == 1 && wrapped && body && m.gaps >= 2 && 3 <= spare && 5 * spare < 2
                * avail && spare <= 3 * (space_w * m.gaps) ==> per * m.gaps + rest == spare && 0
                <= rest < m.gaps
            &&& spare >= 0 && (text_alignment != 1 || !wrapped || !body || m.gaps < 2) ==> per == 0
                && rest == 0
            &&& spare < 0 && (span.extra < 128 || !body || m.gaps < 2) ==> per == 0 && rest == 0
            &&& spare < 0 && span.extra >= 128 && body && m.gaps >= 2 && -2 * spare <= space_w
                * m.gaps && space_w >= 2 ==> per * m.gaps + rest == spare && -(m.gaps as int) < rest <= 0
        }),
{
    let gaps = m.gaps as int;
    let spare = avail - m.width;
    if gaps >= 2 {
        if spare >= 0 {
            let q = spare / gaps;
            assert(q * gaps <= spare < q * gaps + gaps && (spare <= 3 * (space_w * gaps) ==> q <= 3
                * space_w)) by (nonlinear_arith)
                requires
                    q == spare / gaps,
                    0 <= spare,
                    2 <= gaps,
                    0 <= space_w,
            ;
        } else {
            let over = -spare;
            let q = over / gaps;
            assert(q * gaps <= over < q * gaps + gaps && (2 * over <= space_w * gaps ==> 2 * q
                <= space_w)) by (nonlinear_arith)
                requires
                    q == over / gaps,
                    0 < over,
                    2 <= gaps,
                    0 <= space_w,
            ;
            assert((-q) * gaps == -(q * gaps)) by (nonlinear_arith);
        }
    }
}

// ── fixed-width text ──────────────────────────────────────────────

/// No line ends in the text by itself.
pub open spec fn no_newlines(buf: Seq<u8>) -> bool {
    forall|i: int| 0 <= i < buf.len() ==> #[trigger] buf[i] != 0x0A && buf[i] != 0x0D
}

/// Line `k` is the `k`th 51 bytes of a text of `n`.
pub open spec fn is_row(l: LineSpan, k: int, n: int) -> bool {
    &&& l.start == 51 * k
    &&& l.len == (if n - 51 * k < 51 {
        n - 51 * k
    } else {
        51
    })
}

proof fn lemma_rows(buf: Seq<u8>, n: int, max: int, m: Mono, i: int)
    requires
        no_newlines(buf),
        0 <= i <= n <= buf.len(),
        n <= 65535,
        0 < max <= 37,
        m.start == 51 * m.lines.len(),
        m.col == i - m.start,
        0 <= m.col < 51,
        !m.skipped,
        m.lines.len() < max,
        forall|k: int| 0 <= k < m.lines.len() ==> is_row(#[trigger] m.lines[k], k, n),
    ensures
        ({
            let (lines, next) = wrap::mono_run(buf, n, max, m, i);
            &&& lines.len() <= max
            &&& forall|k: int| 0 <= k < lines.len() ==> is_row(#[trigger] lines[k], k, n)
            &&& next == (if n < 51 * max {
                n
            } else {
                51 * max
            })
            &&& lines.len() * 51 >= next
        }),
    decreases n - i,
{
    if i < n {
        assert(buf[i] != 0x0A && buf[i] != 0x0D);
        let after = wrap::mono_step(buf, m, i);
        assert forall|k: int| 0 <= k < after.lines.len() implies is_row(
            #[trigger] after.lines[k],
            k,
            n,
        ) by {
            if k < m.lines.len() {
                assert(is_row(m.lines[k], k, n));
            }
        }
        if !(after.start == i + 1 && after.lines.len() >= max) {
            lemma_rows(buf, n, max, after, i + 1);
        }
    } else if m.start < n {
        assert(buf[n - 1] != 0x0D);
        let lines = wrap::pushed(m.lines, m.start, n);
        assert forall|k: int| 0 <= k < lines.len() implies is_row(#[trigger] lines[k], k, n) by {
            if k < m.lines.len() {
                assert(is_row(m.lines[k], k, n));
            }
        }
    }
}

/// Plain text without newlines is cut every 51 characters, as many lines as the
/// page has; the next page goes on behind them.
pub proof fn law_plain_text_is_cut_evenly(buf: Seq<u8>, n: int, max: int)
    requires
        no_newlines(buf),
        0 <= n <= buf.len(),
        n <= 65535,
        0 < max <= 37,
    ensures
        ({
            let (lines, next) = wrap::mono_wrap(buf, n, max);
            &&& lines.len() <= max
            &&& forall|k: int| 0 <= k < lines.len() ==> is_row(#[trigger] lines[k], k, n)
            &&& next == (if n < 51 * max {
                n
            } else {
                51 * max
            })
            &&& lines.len() * 51 >= next
        }),
{
    lemma_rows(
        buf,
        n,
        max,
        Mono { lines: Seq::empty(), start: 0, col: 0, skipped: false },
        0,
    );
}

proof fn lemma_within_line(buf: Seq<u8>, n: int, max: int, m: Mono, i: int, end: int)
    requires
        0 <= m.start <= i <= end <= n <= buf.len(),
        end - m.start < 51,
        m.col == i - m.start,
        forall|j: int| m.start <= j < end ==> #[trigger] buf[j] != 0x0A && buf[j] != 0x0D,
    ensures
        wrap::mono_run(buf, n, max, m, i) == wrap::mono_run(
            buf,
            n,
            max,
            Mono { col: end - m.start, ..m },
            end,
        ),
    decreases end - i,
{
    if i < end {
        assert(buf[i] != 0x0A && buf[i] != 0x0D);
        lemma_within_line(buf, n, max, Mono { col: m.col + 1, ..m }, i + 1, end);
    }
}

/// A newline ends its line and the next one starts behind it: the text before the
/// first newline is the first line, with or without a carriage return.
pub proof fn law_newlines_end_lines(buf: Seq<u8>, n: int, max: int, end: int)
    requires
        0 < end < n <= buf.len(),
        n <= 65535,
        end < 51,
        1 < max <= 37,
        forall|j: int| 0 <= j < end ==> #[trigger] buf[j] != 0x0A && buf[j] != 0x0D,
        buf[end] == 0x0A,
    ensures
        wrap::mono_wrap(buf, n, max) == wrap::mono_run(
            buf,
            n,
            max,
            Mono {
                lines: seq![
                    LineSpan {
                        start: 0,
                        len: end as u16,
                        flags: 0,
                        indent: 0,
                        align: 0,
                        extra: 0,
                    },
                ],
                start: end + 1,
                col: 0,
                skipped: false,
            },
            end + 1,
        ),
{
    let m = Mono { lines: Seq::<LineSpan>::empty(), start: 0, col: 0, skipped: false };
    lemma_within_line(buf, n, max, m, 0, end);
    assert(buf[end - 1] != 0x0D);
    assert(wrap::pushed(m.lines, 0, end) =~= seq![wrap::plain_span(0, end)]);
}

// ── flowing text ──────────────────────────────────────────────────

/// The room of a line: the column without its levels, 24 pixels each, and without
/// the first-line indent on the first line.
pub proof fn law_room_of_a_line(page: FlowPage, block: BlockProps)
    requires
        24 * block.left + block.text_indent_qem * page.em_px <= page.max_width <= 100000,
        block.text_indent_qem * page.em_px < 4 * 65536,
    ensures
        flow::room(page, block, false) == page.max_width - 24 * block.left,
        ({
            let r = flow::room(page, block, true);
            let taken = page.max_width - 24 * block.left - r;
            4 * taken <= block.text_indent_qem * page.em_px < 4 * taken + 4
        }),
{
    assert(block.text_indent_qem * page.em_px >= 0) by (nonlinear_arith);
}

/// Two words of plain letters with a space between them.
pub open spec fn two_words(buf: Seq<u8>, k: int) -> bool {
    &&& 0 < k < buf.len() - 1
    &&& buf.len() <= 65535
    &&& buf[k] == 0x20
    &&& forall|i: int| 0 <= i < buf.len() && i != k ==> 0x20 < #[trigger] buf[i] < 0x80
}

proof fn lemma_two_words(buf: Seq<u8>, k: int, s: EventState)
    requires
        two_words(buf, k),
        s == flow::top_of_text(),
    ensures
        ({
            let plain = events::spec_style(TextStyle::spec_plain());
            let n = buf.len() as int;
            let s1 = EventState { pos: k, ..s };
            let s2 = EventState { pos: k + 1, ..s };
            let s3 = EventState { pos: n, ..s };
            &&& events::next_event(buf, s) == (
                Some(Event::Word { start: 0, end: k as u32, style: plain }),
                s1,
            )
            &&& events::next_event(buf, s1) == (
                Some(Event::Space { start: k as u32, end: (k + 1) as u32, style: plain }),
                s2,
            )
            &&& events::next_event(buf, s2) == (
                Some(Event::Word { start: (k + 1) as u32, end: n as u32, style: plain }),
                s3,
            )
            &&& events::next_event(buf, s3) == (None::<Event>, s3)
        }),
{
    let n = buf.len() as int;
    let s1 = EventState { pos: k, ..s };
    let s2 = EventState { pos: k + 1, ..s };
    assert forall|i: int| 0 <= i < buf.len() implies #[trigger] buf[i] < 0x80 by {}
    assert(mark_laws::is_letter(buf[0]));
    mark_laws::law_words_are_whole(buf, s.scan());
    let e = match crate::layout::scan::next_token(buf, s.scan()).0 {
        Some(crate::layout::scan::Token::Word { end, .. }) => end as int,
        _ => 0,
    };
    if e < k {
        assert(mark_laws::is_letter(buf[e]));
    } else if e > k {
        assert(mark_laws::is_letter(buf[k]));
    }
    mark_laws::law_spaces_are_told(buf, s1.scan());
    assert(mark_laws::is_letter(buf[k + 1]));
    mark_laws::law_words_are_whole(buf, s2.scan());
    let f = match crate::layout::scan::next_token(buf, s2.scan()).0 {
        Some(crate::layout::scan::Token::Word { end, .. }) => end as int,
        _ => 0,
    };
    if f < n {
        assert(mark_laws::is_letter(buf[f]));
    }
}

/// Words share a line as long as they and the space between them fit, and else the
/// line breaks at the space: the first line ends before it, the second starts behind
/// it. The page takes all of the text.
pub proof fn law_words_share_a_line_while_they_fit(
    page: FlowPage,
    heights: Seq<u16>,
    adv: FaceAdvance,
    buf: Seq<u8>,
    k: int,
)
    requires
        two_words(buf, k),
        page.max_lines >= 2,
        page.max_width <= 100000,
        0 < measure::text_width(adv, buf.subrange(0, k), fonts::Style::Regular) <= page.max_width,
        measure::text_width(adv, buf.subrange(k + 1, buf.len() as int), fonts::Style::Regular)
            <= page.max_width,
        measure::text_width(adv, buf.subrange(0, k), fonts::Style::Regular) + measure::space_width(
            adv,
            fonts::Style::Regular,
        ) <= page.max_width,
    ensures
        ({
            let (lines, next) = flow::flowed(page, heights, adv, buf);
            let all = measure::text_width(adv, buf.subrange(0, k), fonts::Style::Regular)
                + measure::space_width(adv, fonts::Style::Regular) + measure::text_width(
                adv,
                buf.subrange(k + 1, buf.len() as int),
                fonts::Style::Regular,
            );
            &&& next == buf.len()
            &&& all <= page.max_width ==> lines.len() == 1 && lines[0].start == 0 && lines[0].len
                == buf.len() && lines[0].flags / 16 % 4 == 0
            &&& all > page.max_width ==> {
                &&& lines.len() == 2
                &&& lines[0].start == 0 && lines[0].len == k && lines[0].flags / 16 % 4 == 2
                &&& lines[1].start == k + 1 && lines[1].len == buf.len() - k - 1
                &&& lines[1].flags / 16 % 4 == 0
            }
        }),
{
    let s = flow::top_of_text();
    let n = buf.len() as int;
    lemma_two_words(buf, k, s);
    let plain = events::spec_style(TextStyle::spec_plain());
    let o = flow::fresh_line(plain);
    let none = Seq::<LineSpan>::empty();
    let w1 = measure::text_width(adv, buf.subrange(0, k), fonts::Style::Regular);
    let sp = measure::space_width(adv, fonts::Style::Regular);
    let w2 = measure::text_width(adv, buf.subrange(k + 1, n), fonts::Style::Regular);
    let s1 = EventState { pos: k, ..s };
    let s2 = EventState { pos: k + 1, ..s };
    let s3 = EventState { pos: n, ..s };
    assert(fonts::markup_face(plain) == fonts::Style::Regular);
    assert(flow::room(page, o.block, true) == page.max_width) by {
        assert(0 * page.em_px == 0) by (nonlinear_arith);
    }
    assert(flow::room(page, o.block, false) == page.max_width);
    let e1 = Event::Word { start: 0, end: k as u32, style: plain };
    let o1 = OpenLine { cursor: w1 as u32, last_end: k as usize, ..o };
    assert(items::word_of(buf, e1) == buf.subrange(0, k));
    assert(flow::flow_run(page, heights, adv, buf, s, o, none) == flow::flow_run(
        page,
        heights,
        adv,
        buf,
        s1,
        o1,
        none,
    ));
    let o2 = OpenLine {
        cursor: (w1 + sp) as u32,
        last_end: (k + 1) as usize,
        brk: Some(
            flow::BreakPoint {
                line_end: k as usize,
                next_start: (k + 1) as usize,
                cursor: (w1 + sp) as u32,
                next_style: plain,
            },
        ),
        ..o
    };
    assert(flow::flow_run(page, heights, adv, buf, s1, o1, none) == flow::flow_run(
        page,
        heights,
        adv,
        buf,
        s2,
        o2,
        none,
    ));
    let e3 = Event::Word { start: (k + 1) as u32, end: n as u32, style: plain };
    assert(items::word_of(buf, e3) == buf.subrange(k + 1, n));
    if w1 + sp + w2 <= page.max_width {
        let o3 = OpenLine { cursor: (w1 + sp + w2) as u32, last_end: n as usize, ..o2 };
        assert(flow::flow_run(page, heights, adv, buf, s2, o2, none) == flow::flow_run(
            page,
            heights,
            adv,
            buf,
            s3,
            o3,
            none,
        ));
    } else {
        let line = flow::flow_line(o2, 0, k, LineSpan::END_SOFT, true);
        let o3 = OpenLine {
            start: (k + 1) as usize,
            cursor: w2 as u32,
            brk: None,
            first: false,
            last_end: n as usize,
            ..o2
        };
        assert(flow::flow_run(page, heights, adv, buf, s2, o2, none) == flow::flow_run(
            page,
            heights,
            adv,
            buf,
            s3,
            o3,
            none.push(line),
        ));
    }
}

/// A soft hyphen is where a word may break: text that does not fit behind it goes to
/// the next line, and the line ends at the hyphen.
pub proof fn law_lines_break_at_soft_hyphens(
    page: FlowPage,
    heights: Seq<u16>,
    adv: FaceAdvance,
    o: OpenLine,
    lines: Seq<LineSpan>,
    start: u32,
    end: u32,
    style: Style,
    w: int,
    text_end: int,
)
    requires
        o.cursor > 0,
        o.start <= start < end <= text_end <= 65535,
        o.cursor + w > flow::room(page, o.block, o.first),
        0 <= w,
        lines.len() + 1 < page.max_lines,
    ensures
        ({
            let at = flow::flow_step(
                page,
                heights,
                adv,
                Event::SoftHyphen { start, end, style },
                Seq::empty(),
                style,
                o.block,
                o,
                lines,
            );
            let after = flow::flow_text(
                page,
                w,
                end as int,
                text_end,
                style,
                at.open,
                at.lines,
            );
            &&& at.lines == lines
            &&& after.stop is None
            &&& after.lines.len() == lines.len() + 1
            &&& after.lines.last().start == o.start
            &&& after.lines.last().start + after.lines.last().len == end
            &&& after.open.start == end
            &&& after.open.cursor == w as u32
        }),
{
}

/// A newline ends the line where it stands; an empty line stays one. A paragraph
/// break leaves one blank line, and none at the top of a page.
pub proof fn law_breaks_end_the_line(
    page: FlowPage,
    heights: Seq<u16>,
    adv: FaceAdvance,
    o: OpenLine,
    lines: Seq<LineSpan>,
    start: u32,
    end: u32,
    style: Style,
)
    requires
        o.start <= start < end <= 65535,
        lines.len() + 2 < page.max_lines,
    ensures
        ({
            let hard = flow::flow_step(
                page,
                heights,
                adv,
                Event::HardBreak { start, end },
                Seq::empty(),
                style,
                o.block,
                o,
                lines,
            );
            &&& hard.stop is None
            &&& hard.lines.len() == lines.len() + 1
            &&& hard.lines.last().start == o.start
            &&& hard.lines.last().start + hard.lines.last().len == start
            &&& hard.open.start == end && hard.open.cursor == 0 && !hard.open.first
        }),
        ({
            let para = flow::flow_step(
                page,
                heights,
                adv,
                Event::ParagraphBreak { start, end },
                Seq::empty(),
                style,
                o.block,
                o,
                lines,
            );
            &&& para.stop is None
            &&& lines.len() > 0 || start > o.start ==> {
                &&& para.lines.len() == lines.len() + 2
                &&& para.lines[lines.len() as int].start == o.start
                &&& para.lines[lines.len() as int].len == start - o.start
                &&& para.lines.last().len == 0
            }
            &&& lines.len() == 0 && start == o.start ==> para.lines.len() == 0
            &&& para.open.start == end && para.open.cursor == 0 && para.open.first
        }),
{
}

/// A page break ends the page with what is on it; at the top of a page it is passed
/// over. A page that is full ends at its last line.
pub proof fn law_page_breaks_end_the_page(
    page: FlowPage,
    heights: Seq<u16>,
    adv: FaceAdvance,
    o: OpenLine,
    lines: Seq<LineSpan>,
    start: u32,
    end: u32,
    style: Style,
)
    requires
        o.start <= start < end <= 65535,
    ensures
        ({
            let f = flow::flow_step(
                page,
                heights,
                adv,
                Event::PageBreak { start, end },
                Seq::empty(),
                style,
                o.block,
                o,
                lines,
            );
            &&& start > o.start ==> f.stop == Some(end as int) && f.lines.len() == lines.len() + 1
                && f.lines.last().start == o.start && f.lines.last().len == start - o.start
            &&& start == o.start && lines.len() > 0 ==> f.stop == Some(end as int) && f.lines == lines
            &&& start == o.start && lines.len() == 0 ==> f.stop is None && f.lines == lines
                && f.open.start == end
        }),
        lines.len() + 1 == page.max_lines ==> ({
            let f = flow::flow_step(
                page,
                heights,
                adv,
                Event::HardBreak { start, end },
                Seq::empty(),
                style,
                o.block,
                o,
                lines,
            );
            f.stop == Some(end as int) && f.lines.len() == page.max_lines
        }),
{
}

/// An image takes the lines of its height, 350 pixels where that is not known, and
/// all of them are image lines; the first knows its record. One that does not fit
/// behind other lines waits for the next page.
pub proof fn law_images_take_their_rows(
    page: FlowPage,
    heights: Seq<u16>,
    o: OpenLine,
    lines: Seq<LineSpan>,
    start: int,
    end: int,
    style: Style,
)
    requires
        0 <= start < end <= 65535,
        o.start == start,
        page.line_h > 0,
        o.images < usize::MAX,
    ensures
        ({
            let h: int = if o.images < heights.len() && heights[o.images as int] > 0 {
                heights[o.images as int] as int
            } else {
                350
            };
            let rows = flow::image_rows(page, heights, o.images as int);
            let f = flow::flow_image(page, heights, start, end, style, o, lines);
            &&& (rows - 1) * page.line_h < h <= rows * page.line_h
            &&& lines.len() > 0 && lines.len() + rows > page.max_lines ==> f.stop == Some(start)
                && f.lines == lines
            &&& lines.len() + rows < page.max_lines ==> {
                &&& f.stop is None
                &&& f.lines.len() == lines.len() + rows
                &&& forall|k: int|
                    lines.len() <= k < f.lines.len() ==> (#[trigger] f.lines[k]).flags == 8
                &&& f.lines[lines.len() as int].start == start
                &&& f.lines[lines.len() as int].len == end - start
                &&& forall|k: int| lines.len() < k < f.lines.len() ==> (#[trigger] f.lines[k]).len
                    == 0
                &&& f.open.start == end && f.open.images == o.images + 1
            }
        }),
{
    let h: int = if o.images < heights.len() && heights[o.images as int] > 0 {
        heights[o.images as int] as int
    } else {
        350
    };
    let lh = page.line_h as int;
    let q = (h + lh - 1) / lh;
    assert(q >= 1 && (q - 1) * lh < h <= q * lh) by (nonlinear_arith)
        requires
            q == (h + lh - 1) / lh,
            h > 0,
            lh > 0,
    ;
}

/// A page of plain text has no more lines than it may; where it has fewer, the
/// text has ended.
pub proof fn law_plain_pages_are_full_or_last(buf: Seq<u8>, n: int, max: int)
    requires
        0 <= n <= buf.len(),
        1 <= max <= 37,
    ensures
        wrap::mono_wrap(buf, n, max).0.len() <= max,
        wrap::mono_wrap(buf, n, max).0.len() < max ==> wrap::mono_wrap(buf, n, max).1 == n,
{
    lemma_mono_fills(
        buf,
        n,
        max,
        Mono { lines: Seq::empty(), start: 0, col: 0, skipped: false },
        0,
    );
}

proof fn lemma_mono_fills(buf: Seq<u8>, n: int, max: int, m: Mono, i: int)
    requires
        0 <= i <= n <= buf.len(),
        m.lines.len() < max <= 37,
    ensures
        wrap::mono_run(buf, n, max, m, i).0.len() <= max,
        wrap::mono_run(buf, n, max, m, i).0.len() < max ==> wrap::mono_run(buf, n, max, m, i).1
            == n,
    decreases n - i,
{
    if i < n {
        let after = wrap::mono_step(buf, m, i);
        if !(after.start == i + 1 && after.skipped == m.skipped && after.lines.len() >= max) {
            lemma_mono_fills(buf, n, max, after, i + 1);
        }
    }
}

/// A line stays as it is where it would have to open up too far: by two fifths of
/// the column or more, or by more than three spaces to a gap; nor is it worth it for
/// less than three pixels. A line gives way by half a space to a gap and no more.
pub proof fn law_loose_lines_stay_ragged(
    text_alignment: u8,
    span: LineSpan,
    m: LineMeasure,
    avail: int,
    space_w: int,
)
    requires
        0 <= avail,
        2 <= space_w,
        m.gaps >= 2,
    ensures
        ({
            let (per, rest) = measure::justify(text_alignment, span, m, avail, space_w);
            let spare = avail - m.width;
            &&& 0 <= spare < 3 ==> per == 0 && rest == 0
            &&& 0 <= spare && 5 * spare >= 2 * avail ==> per == 0 && rest == 0
            &&& 0 <= spare && spare >= (3 * space_w + 1) * m.gaps ==> per == 0 && rest == 0
            &&& spare < 0 && -spare >= (space_w / 2 + 1) * m.gaps ==> per == 0 && rest == 0
        }),
{
    let gaps = m.gaps as int;
    let spare = avail - m.width;
    if spare >= (3 * space_w + 1) * gaps {
        let q = spare / gaps;
        assert(q >= 3 * space_w + 1) by (nonlinear_arith)
            requires
                q == spare / gaps,
                spare >= (3 * space_w + 1) * gaps,
                gaps >= 2,
        ;
    }
    if spare < 0 && -spare >= (space_w / 2 + 1) * gaps {
        let over = -spare;
        let half = space_w / 2;
        let q = over / gaps;
        assert(q >= half + 1) by (nonlinear_arith)
            requires
                q == over / gaps,
                over >= (half + 1) * gaps,
                gaps >= 2,
        ;
    }
}

/// An image that fills the page to its last line ends it, and the next page starts
/// behind the image. At the top of a page an image stays, however high it is, and
/// takes no more lines than there are.
pub proof fn law_images_may_fill_the_page(
    page: FlowPage,
    heights: Seq<u16>,
    o: OpenLine,
    lines: Seq<LineSpan>,
    start: int,
    end: int,
    style: Style,
)
    requires
        0 <= start < end <= 65535,
        o.start == start,
        page.line_h > 0,
        1 <= page.max_lines <= 37,
        lines.len() < page.max_lines,
        o.images < usize::MAX,
    ensures
        ({
            let rows = flow::image_rows(page, heights, o.images as int);
            let f = flow::flow_image(page, heights, start, end, style, o, lines);
            &&& lines.len() + rows == page.max_lines ==> f.stop == Some(end) && f.lines.len()
                == page.max_lines
            &&& lines.len() == 0 && rows >= page.max_lines ==> f.stop == Some(end)
                && f.lines.len() == page.max_lines
        }),
{
    let rows = flow::image_rows(page, heights, o.images as int);
    law_images_take_their_rows(page, heights, o, lines, start, end, style);
}

/// A thematic break at the start of a line is passed over: the line starts behind
/// it. Within a line it changes nothing.
pub proof fn law_rules_are_passed_over(
    page: FlowPage,
    heights: Seq<u16>,
    adv: FaceAdvance,
    o: OpenLine,
    lines: Seq<LineSpan>,
    start: u32,
    end: u32,
    style: Style,
)
    requires
        o.start <= start < end,
    ensures
        ({
            let f = flow::flow_step(
                page,
                heights,
                adv,
                Event::ThematicBreak { start, end },
                Seq::empty(),
                style,
                o.block,
                o,
                lines,
            );
            &&& f.stop is None && f.lines == lines
            &&& o.cursor == 0 ==> f.open.start == end && f.open.style == style && f.open.block
                == o.block
            &&& o.cursor > 0 ==> f.open == o
        }),
{
}

/// What is left at the end of the text is its last line, if it is anything and the
/// page has room; either way the text is all read.
pub proof fn law_the_rest_is_the_last_line(
    page: FlowPage,
    heights: Seq<u16>,
    adv: FaceAdvance,
    buf: Seq<u8>,
    s: EventState,
    o: OpenLine,
    lines: Seq<LineSpan>,
)
    requires
        events::next_event(buf, s).0 is None,
        o.start <= 65535,
        o.last_end <= 65535,
    ensures
        ({
            let (after, at) = flow::flow_run(page, heights, adv, buf, s, o, lines);
            &&& at == buf.len()
            &&& o.last_end <= o.start || lines.len() >= page.max_lines ==> after == lines
            &&& o.last_end > o.start && lines.len() < page.max_lines ==> {
                &&& after.len() == lines.len() + 1 && after.drop_last() == lines
                &&& after.last().start == o.start && after.last().len == o.last_end - o.start
            }
        }),
{
    let (after, _) = flow::flow_run(page, heights, adv, buf, s, o, lines);
    if o.last_end > o.start && lines.len() < page.max_lines {
        assert(after.drop_last() =~= lines);
    }
}

} // verus!
