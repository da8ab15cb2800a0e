//! The presentation engine: column layout, deterministic colors, and
//! soft-wrapping of long payloads into aligned continuation lines.
//! It computes colored text spans; an unverified edge writes them.

use vstd::prelude::*;

use crate::record::{Level, LogcatRecord, LogcatRecordV, Timestamp};
use crate::text::{
    chars_to_string, pad_left_chars, pad_right_chars, push_all, push_two_digits, spec_pad_left,
    spec_pad_right, spec_truncate, spec_two_digits, spec_u32_dec, spaces, str_chars, sub_chars,
    truncate_chars, u32_dec_chars,
};

verus! {

/// A color directive for the output sink.
#[derive(Clone, Copy, Debug, PartialEq, Eq, Structural)]
pub enum OutColor {
    Green,
    Yellow,
    Red,
    Black,
    /// An index into the terminal's 256-color palette.
    Palette(u8),
}

/// A run of characters written with one color state.
#[derive(Debug, Clone)]
pub struct Span {
    pub text: String,
    pub fg: Option<OutColor>,
    pub bg: Option<OutColor>,
    pub intense: bool,
}

/// Exclusive-or fold of a byte string, seeded with a fixed constant.
pub open spec fn spec_xor_fold(b: Seq<u8>) -> u8
    decreases b.len(),
{
    if b.len() == 0 {
        42u8
    } else {
        spec_xor_fold(b.drop_last()) ^ b.last()
    }
}

/// Moves palette indices that read badly on dark terminals.
pub open spec fn spec_remap(c: u8) -> u8 {
    if c <= 1 {
        (c + 2) as u8
    } else if 16 <= c && c <= 21 {
        (c + 6) as u8
    } else if (52 <= c && c <= 55) || (126 <= c && c <= 129) {
        (c + 4) as u8
    } else if (163 <= c && c <= 165) || (200 <= c && c <= 201) {
        (c + 3) as u8
    } else if c == 207 {
        (c + 1) as u8
    } else if 232 <= c && c <= 240 {
        (c + 9) as u8
    } else {
        c
    }
}

/// The deterministic palette index of a text: the same text always
/// takes the same color within one run.
pub open spec fn spec_hashed_color(s: Seq<char>) -> u8 {
    spec_remap(spec_xor_fold(vstd::utf8::encode_utf8(s)))
}

/// Palette index derived from the byte-wise exclusive-or fold of the
/// text.
pub fn hashed_color(s: &str) -> (r: u8)
    ensures
        r == spec_hashed_color(s@),
{
    let b = s.as_bytes();
    let mut acc: u8 = 42;
    let mut i: usize = 0;
    assert(b@.subrange(0, 0) =~= Seq::<u8>::empty());
    while i < b.len()
        invariant
            i <= b@.len(),
            b@ == vstd::utf8::encode_utf8(s@),
            acc == spec_xor_fold(b@.subrange(0, i as int)),
        decreases b@.len() - i,
    {
        let x: u8 = *vstd::slice::slice_index_get(b, i);
        assert(b@.subrange(0, i + 1).drop_last() =~= b@.subrange(0, i as int));
        acc = acc ^ x;
        i = i + 1;
    }
    assert(b@.subrange(0, b@.len() as int) =~= b@);
    if acc <= 1 {
        acc + 2
    } else if 16 <= acc && acc <= 21 {
        acc + 6
    } else if (52 <= acc && acc <= 55) || (126 <= acc && acc <= 129) {
        acc + 4
    } else if (163 <= acc && acc <= 165) || (200 <= acc && acc <= 201) {
        acc + 3
    } else if acc == 207 {
        acc + 1
    } else if 232 <= acc && acc <= 240 {
        acc + 9
    } else {
        acc
    }
}

/// The fixed severity highlight.
pub open spec fn spec_level_color(l: Level) -> Option<OutColor> {
    match l {
        Level::Info => Some(OutColor::Green),
        Level::Warn => Some(OutColor::Yellow),
        Level::Error => Some(OutColor::Red),
        Level::Fatal => Some(OutColor::Red),
        Level::Assert => Some(OutColor::Red),
        _ => None,
    }
}

pub fn level_color(l: Level) -> (r: Option<OutColor>)
    ensures
        r == spec_level_color(l),
{
    match l {
        Level::Info => Some(OutColor::Green),
        Level::Warn => Some(OutColor::Yellow),
        Level::Error => Some(OutColor::Red),
        Level::Fatal => Some(OutColor::Red),
        Level::Assert => Some(OutColor::Red),
        _ => None,
    }
}

/// The message with every tab removed, as the original stream did.
pub open spec fn strip_tabs(s: Seq<char>) -> Seq<char>
    decreases s.len(),
{
    if s.len() == 0 {
        Seq::empty()
    } else if s.last() == '\t' {
        strip_tabs(s.drop_last())
    } else {
        strip_tabs(s.drop_last()) + seq![s.last()]
    }
}

fn strip_tabs_exec(v: &Vec<char>) -> (r: Vec<char>)
    ensures
        r@ == strip_tabs(v@),
{
    let mut r: Vec<char> = Vec::new();
    let mut i: usize = 0;
    assert(v@.subrange(0, 0) =~= Seq::<char>::empty());
    while i < v.len()
        invariant
            i <= v@.len(),
            r@ == strip_tabs(v@.subrange(0, i as int)),
        decreases v@.len() - i,
    {
        assert(v@.subrange(0, i + 1).drop_last() =~= v@.subrange(0, i as int));
        if v[i] != '\t' {
            r.push(v[i]);
        }
        i = i + 1;
    }
    assert(v@.subrange(0, v@.len() as int) =~= v@);
    r
}

/// The message cut into payload-width pieces, by character count: one
/// piece when it fits (or is empty), else full pieces and the rest.
pub open spec fn spec_chunks(msg: Seq<char>, p: int) -> Seq<Seq<char>>
    decreases msg.len(),
{
    if p < 1 || msg.len() <= p {
        seq![msg]
    } else {
        seq![msg.subrange(0, p)] + spec_chunks(msg.subrange(p, msg.len() as int), p)
    }
}

/// The continuation glyph of line `i` of `n`: neutral for a lone line,
/// else begin, end, or middle.
pub open spec fn spec_marker(i: int, n: int) -> Seq<char> {
    if n == 1 {
        seq![' ', ' ', ' ']
    } else if i == 0 {
        seq![' ', '┌', ' ']
    } else if i == n - 1 {
        seq![' ', '└', ' ']
    } else {
        seq![' ', '├', ' ']
    }
}

/// The pieces, one after another.
pub open spec fn concat_chunks(l: Seq<Seq<char>>) -> Seq<char>
    decreases l.len(),
{
    if l.len() == 0 {
        Seq::empty()
    } else {
        l.first() + concat_chunks(l.drop_first())
    }
}

/// Wrapping loses nothing: the pieces, in order, are the message.
pub proof fn lemma_chunks_concat(msg: Seq<char>, p: int)
    requires
        p >= 1,
    ensures
        concat_chunks(spec_chunks(msg, p)) == msg,
    decreases msg.len(),
{
    if msg.len() <= p {
        let cs = spec_chunks(msg, p);
        assert(cs =~= seq![msg]);
        assert(cs.drop_first() =~= Seq::<Seq<char>>::empty());
        assert(concat_chunks(cs.drop_first()) =~= Seq::<char>::empty());
        assert(concat_chunks(cs) =~= msg);
    } else {
        let rest = msg.subrange(p, msg.len() as int);
        lemma_chunks_concat(rest, p);
        let cs = spec_chunks(msg, p);
        assert(cs.drop_first() =~= spec_chunks(rest, p));
        assert(concat_chunks(cs) =~= msg.subrange(0, p) + concat_chunks(spec_chunks(rest, p)));
        assert(msg.subrange(0, p) + rest =~= msg);
    }
}

/// Every piece but the last is exactly the payload width; the last is
/// never wider, and is empty only when the whole message is.
pub proof fn lemma_chunk_sizes(msg: Seq<char>, p: int)
    requires
        p >= 1,
    ensures
        spec_chunks(msg, p).len() >= 1,
        forall|i: int|
            0 <= i < spec_chunks(msg, p).len() - 1 ==> (#[trigger] spec_chunks(msg, p)[i]).len()
                == p,
        spec_chunks(msg, p).last().len() <= p,
        spec_chunks(msg, p).last().len() == 0 ==> msg.len() == 0,
    decreases msg.len(),
{
    if msg.len() > p {
        let rest = msg.subrange(p, msg.len() as int);
        lemma_chunk_sizes(rest, p);
        let cs = spec_chunks(msg, p);
        assert(cs.drop_first() =~= spec_chunks(rest, p));
        assert(cs.last() == spec_chunks(rest, p).last());
        assert forall|i: int| 0 <= i < cs.len() - 1 implies (#[trigger] cs[i]).len() == p by {
            if i > 0 {
                assert(cs[i] == spec_chunks(rest, p)[i - 1]);
            }
        }
    }
}

/// A message exactly as long as the payload width fills exactly one
/// line, with the neutral marker; one character more takes exactly two
/// lines, marked begin and end.
pub proof fn lemma_wrap_boundary(msg: Seq<char>, p: int)
    requires
        p >= 1,
    ensures
        msg.len() == p ==> spec_chunks(msg, p).len() == 1 && spec_marker(0, 1) == seq![
            ' ',
            ' ',
            ' ',
        ],
        msg.len() == p + 1 ==> spec_chunks(msg, p).len() == 2 && spec_marker(0, 2) == seq![
            ' ',
            '┌',
            ' ',
        ] && spec_marker(1, 2) == seq![' ', '└', ' '],
{
    if msg.len() == p + 1 {
        let rest = msg.subrange(p, msg.len() as int);
        assert(rest.len() == 1);
        assert(spec_chunks(rest, p).len() == 1);
    }
}

fn chunks_exec(msg: &Vec<char>, p: usize) -> (r: Vec<Vec<char>>)
    requires
        p >= 1,
    ensures
        r@.map_values(|c: Vec<char>| c@) == spec_chunks(msg@, p as int),
{
    let ghost total = spec_chunks(msg@, p as int);
    let mut r: Vec<Vec<char>> = Vec::new();
    let mut start: usize = 0;
    assert(r@.map_values(|c: Vec<char>| c@) =~= Seq::<Seq<char>>::empty());
    assert(msg@.subrange(0, msg@.len() as int) =~= msg@);
    assert(Seq::<Seq<char>>::empty() + total =~= total);
    loop
        invariant_except_break
            start <= msg@.len(),
            p >= 1,
            r@.map_values(|c: Vec<char>| c@) + spec_chunks(
                msg@.subrange(start as int, msg@.len() as int),
                p as int,
            ) =~= total,
        ensures
            r@.map_values(|c: Vec<char>| c@) =~= total,
        decreases msg@.len() - start,
    {
        let ghost rest = msg@.subrange(start as int, msg@.len() as int);
        if msg.len() - start <= p {
            let piece = sub_chars(msg, start, msg.len());
            let ghost pre = r@;
            r.push(piece);
            assert(spec_chunks(rest, p as int) =~= seq![rest]);
            assert(r@.map_values(|c: Vec<char>| c@) =~= pre.map_values(|c: Vec<char>| c@)
                + seq![rest]);
            break ;
        } else {
            let piece = sub_chars(msg, start, start + p);
            let ghost pre = r@;
            r.push(piece);
            assert(rest.subrange(0, p as int) =~= msg@.subrange(start as int, start + p));
            assert(rest.subrange(p as int, rest.len() as int) =~= msg@.subrange(
                start + p,
                msg@.len() as int,
            ));
            assert(spec_chunks(rest, p as int) =~= seq![rest.subrange(0, p as int)] + spec_chunks(
                rest.subrange(p as int, rest.len() as int),
                p as int,
            ));
            assert(r@.map_values(|c: Vec<char>| c@) =~= pre.map_values(|c: Vec<char>| c@) + seq![
                msg@.subrange(start as int, start + p),
            ]);
            start = start + p;
        }
    }
    r
}

/// The layout configuration and the terminal width the renderer uses.
pub struct Terminal {
    pub width: usize,
    pub tag_width: usize,
    pub process_name_width: usize,
    pub pid_width: usize,
    pub hide_timestamp: bool,
    pub hide_date: bool,
    pub use_process_name: bool,
    pub bright_colors: bool,
}

impl Terminal {
    /// The widths leave room for the fixed parts of the preamble.
    pub open spec fn wf(self) -> bool {
        self.tag_width + self.process_name_width + self.pid_width + 100 <= usize::MAX
    }
}

impl Default for Terminal {
    /// The conventional layout: width 80, tag 30, name 20, pid 10,
    /// timestamps shown without their date, names and bright colors on.
    fn default() -> (r: Terminal)
        ensures
            r.width == 80,
            r.tag_width == 30,
            r.process_name_width == 20,
            r.pid_width == 10,
            !r.hide_timestamp,
            r.hide_date,
            r.use_process_name,
            r.bright_colors,
            r.wf(),
    {
        Terminal {
            width: 80,
            tag_width: 30,
            process_name_width: 20,
            pid_width: 10,
            hide_timestamp: false,
            hide_date: true,
            use_process_name: true,
            bright_colors: true,
        }
    }
}

/// The timestamp column: empty when hidden; `HH:MM:SS` when the date is
/// hidden and `MM-DD HH:MM:SS` otherwise; a record without a timestamp
/// takes spaces of the active format's width.
pub open spec fn spec_datetime_col(t: Terminal, ts: Option<Timestamp>) -> Seq<char> {
    if t.hide_timestamp {
        Seq::empty()
    } else if t.hide_date {
        match ts {
            Some(x) => spec_two_digits(x.hour as int) + seq![':'] + spec_two_digits(
                x.minute as int,
            ) + seq![':'] + spec_two_digits(x.second as int),
            None => Seq::new(8, |i: int| ' '),
        }
    } else {
        match ts {
            Some(x) => spec_two_digits(x.month as int) + seq!['-'] + spec_two_digits(x.day as int)
                + seq![' '] + spec_two_digits(x.hour as int) + seq![':'] + spec_two_digits(
                x.minute as int,
            ) + seq![':'] + spec_two_digits(x.second as int),
            None => Seq::new(14, |i: int| ' '),
        }
    }
}

/// The tag column: the tag cut to the tag width, left-aligned when
/// timestamps are hidden and right-aligned when they are shown.
pub open spec fn spec_tag_col(t: Terminal, tag: Seq<char>) -> Seq<char> {
    if t.hide_timestamp {
        spec_pad_right(spec_truncate(tag, t.tag_width as int), t.tag_width as int)
    } else {
        spec_pad_left(spec_truncate(tag, t.tag_width as int), t.tag_width as int)
    }
}

/// The `<pid>:<pid>` fallback shown when process names are off.
pub open spec fn spec_pid_fallback(pid: u32) -> Seq<char> {
    spec_u32_dec(pid as int) + seq![':'] + spec_u32_dec(pid as int)
}

/// The identity column: the enriched process name cut to its width and
/// right-aligned, or the pid fallback right-aligned to the pid width.
pub open spec fn spec_name_col(t: Terminal, r: LogcatRecordV) -> Seq<char> {
    if t.use_process_name {
        spec_pad_left(
            spec_truncate(r.process_name, t.process_name_width as int),
            t.process_name_width as int,
        )
    } else {
        spec_pad_left(spec_pid_fallback(r.pid), t.pid_width as int)
    }
}

/// The severity column: the level's character between two spaces.
pub open spec fn spec_level_col(l: Level) -> Seq<char> {
    seq![' ', l.spec_symbol(), ' ']
}

/// Characters the preamble of every line takes: the four columns and
/// their separators.
pub open spec fn spec_preamble_len(t: Terminal, r: LogcatRecordV) -> int {
    spec_datetime_col(t, r.timestamp).len() as int + 1 + spec_tag_col(t, r.tag).len() as int + 2
        + spec_name_col(t, r).len() as int + 2 + 3
}

/// Characters of message payload a line can carry: the width left
/// after the preamble and the marker, and at least one.
pub open spec fn spec_payload_len(t: Terminal, r: LogcatRecordV) -> int {
    if t.width > spec_preamble_len(t, r) + 3 {
        t.width - spec_preamble_len(t, r) - 3
    } else {
        1
    }
}

pub open spec fn span_is(
    sp: Span,
    text: Seq<char>,
    fg: Option<OutColor>,
    bg: Option<OutColor>,
    intense: bool,
) -> bool {
    sp.text@ == text && sp.fg == fg && sp.bg == bg && sp.intense == intense
}

/// Line `i` of `n` of a rendered record: the four preamble columns with
/// their colors, the continuation marker, and the message piece.
pub open spec fn spec_line_ok(t: Terminal, r: LogcatRecordV, line: Seq<Span>, i: int, n: int) -> bool {
    let lc = spec_level_color(r.level);
    let name = spec_name_col(t, r);
    &&& line.len() == 9
    &&& span_is(line[0], spec_datetime_col(t, r.timestamp), None, None, false)
    &&& span_is(line[1], seq![' '], None, None, false)
    &&& span_is(
        line[2],
        spec_tag_col(t, r.tag),
        Some(OutColor::Palette(spec_hashed_color(r.tag))),
        None,
        false,
    )
    &&& span_is(line[3], seq![' ', '['], None, None, false)
    &&& span_is(line[4], name, Some(OutColor::Palette(spec_hashed_color(name))), None, false)
    &&& span_is(line[5], seq![']', ' '], None, None, false)
    &&& span_is(
        line[6],
        spec_level_col(r.level),
        if lc is Some {
            Some(OutColor::Black)
        } else {
            None
        },
        lc,
        false,
    )
    &&& span_is(line[7], spec_marker(i, n), None, None, false)
    &&& span_is(
        line[8],
        spec_chunks(strip_tabs(r.message), spec_payload_len(t, r))[i],
        lc,
        None,
        t.bright_colors,
    )
}

pub proof fn lemma_u32_dec_len(n: int)
    requires
        0 <= n <= u32::MAX as int,
    ensures
        1 <= spec_u32_dec(n).len() <= 10,
{
    assert(spec_pow10(1) == 10 * spec_pow10(0));
    assert(spec_pow10(2) == 10 * spec_pow10(1));
    assert(spec_pow10(3) == 10 * spec_pow10(2));
    assert(spec_pow10(4) == 10 * spec_pow10(3));
    assert(spec_pow10(5) == 10 * spec_pow10(4));
    assert(spec_pow10(6) == 10 * spec_pow10(5));
    assert(spec_pow10(7) == 10 * spec_pow10(6));
    assert(spec_pow10(8) == 10 * spec_pow10(7));
    assert(spec_pow10(9) == 10 * spec_pow10(8));
    assert(spec_pow10(10) == 10 * spec_pow10(9));
    assert(spec_pow10(0) == 1);
    lemma_u32_dec_len_bound(n, 10);
}

proof fn lemma_u32_dec_len_bound(n: int, k: int)
    requires
        0 <= n,
        1 <= k,
        n < spec_pow10(k),
    ensures
        1 <= spec_u32_dec(n).len() <= k,
    decreases k,
{
    if n >= 10 {
        assert(spec_pow10(k) == 10 * spec_pow10(k - 1));
        lemma_u32_dec_len_bound(n / 10, k - 1);
    }
}

pub open spec fn spec_pow10(k: int) -> int
    decreases k,
{
    if k <= 0 {
        1
    } else {
        10 * spec_pow10(k - 1)
    }
}

impl Terminal {
    fn datetime_col(&self, ts: &Option<Timestamp>) -> (v: Vec<char>)
        requires
            *ts matches Some(t) ==> t.valid(),
        ensures
            v@ == spec_datetime_col(*self, *ts),
            v@.len() <= 14,
    {
        let mut v: Vec<char> = Vec::new();
        if self.hide_timestamp {
            return v;
        }
        match ts {
            Some(t) => {
                if self.hide_date {
                    push_two_digits(&mut v, t.hour);
                    v.push(':');
                    push_two_digits(&mut v, t.minute);
                    v.push(':');
                    push_two_digits(&mut v, t.second);
                    assert(v@ =~= spec_two_digits(t.hour as int) + seq![':'] + spec_two_digits(
                        t.minute as int,
                    ) + seq![':'] + spec_two_digits(t.second as int));
                } else {
                    push_two_digits(&mut v, t.month);
                    v.push('-');
                    push_two_digits(&mut v, t.day);
                    v.push(' ');
                    push_two_digits(&mut v, t.hour);
                    v.push(':');
                    push_two_digits(&mut v, t.minute);
                    v.push(':');
                    push_two_digits(&mut v, t.second);
                    assert(v@ =~= spec_two_digits(t.month as int) + seq!['-'] + spec_two_digits(
                        t.day as int,
                    ) + seq![' '] + spec_two_digits(t.hour as int) + seq![':'] + spec_two_digits(
                        t.minute as int,
                    ) + seq![':'] + spec_two_digits(t.second as int));
                }
                v
            },
            None => {
                if self.hide_date {
                    spaces(8)
                } else {
                    spaces(14)
                }
            },
        }
    }

    /// Lays the record out as colored spans, one line per message
    /// piece, every line carrying the full preamble and its marker.
    pub fn render(&self, rec: &LogcatRecord) -> (lines: Vec<Vec<Span>>)
        requires
            self.wf(),
            rec.timestamp matches Some(t) ==> t.valid(),
        ensures
            lines@.len() == spec_chunks(
                strip_tabs(rec@.message),
                spec_payload_len(*self, rec@),
            ).len(),
            forall|i: int|
                0 <= i < lines@.len() ==> spec_line_ok(
                    *self,
                    rec@,
                    #[trigger] lines@[i]@,
                    i,
                    lines@.len() as int,
                ),
    {
        let ghost rv = rec@;
        // Columns
        let dt_v = self.datetime_col(&rec.timestamp);
        let tag_chars = str_chars(&rec.tag);
        let tag_trunc = truncate_chars(&tag_chars, self.tag_width);
        let tag_v = if self.hide_timestamp {
            pad_right_chars(&tag_trunc, self.tag_width)
        } else {
            pad_left_chars(&tag_trunc, self.tag_width)
        };
        assert(tag_v@ == spec_tag_col(*self, rv.tag));
        assert(tag_v@.len() == self.tag_width);
        let name_v = if self.use_process_name {
            let name_chars = str_chars(&rec.process_name);
            let name_trunc = truncate_chars(&name_chars, self.process_name_width);
            let r = pad_left_chars(&name_trunc, self.process_name_width);
            assert(r@.len() == self.process_name_width);
            r
        } else {
            let mut f = u32_dec_chars(rec.pid);
            f.push(':');
            let d2 = u32_dec_chars(rec.pid);
            push_all(&mut f, &d2);
            assert(f@ =~= spec_pid_fallback(rec.pid));
            proof {
                lemma_u32_dec_len(rec.pid as int);
            }
            let r = pad_left_chars(&f, self.pid_width);
            assert(r@.len() <= self.pid_width + 21);
            r
        };
        assert(name_v@ == spec_name_col(*self, rv));
        assert(name_v@.len() <= self.process_name_width + self.pid_width + 21);
        // Colors
        let tag_color = hashed_color(rec.tag.as_str());
        let name_s = chars_to_string(&name_v);
        let name_color = hashed_color(name_s.as_str());
        let lc = level_color(rec.level);
        let sym = rec.level.symbol();
        let mut sym_v: Vec<char> = Vec::new();
        sym_v.push(' ');
        sym_v.push(sym);
        sym_v.push(' ');
        assert(sym_v@ =~= spec_level_col(rv.level));
        // Preamble width and payload width
        let pre: usize = dt_v.len() + 1 + tag_v.len() + 2 + name_v.len() + 2 + 3;
        assert(pre as int == spec_preamble_len(*self, rv));
        let payload: usize = if self.width > pre + 3 {
            self.width - pre - 3
        } else {
            1
        };
        assert(payload as int == spec_payload_len(*self, rv));
        // Message pieces
        let msg_chars = str_chars(&rec.message);
        let msg = strip_tabs_exec(&msg_chars);
        let chunks = chunks_exec(&msg, payload);
        let ghost chunk_seq = spec_chunks(strip_tabs(rv.message), spec_payload_len(*self, rv));
        assert(chunks@.map_values(|c: Vec<char>| c@) == chunk_seq);
        assert(chunks@.len() == chunk_seq.len());
        // Strings shared by every line
        let dt_s = chars_to_string(&dt_v);
        let tag_s = chars_to_string(&tag_v);
        let sym_s = chars_to_string(&sym_v);
        let sp_s = {
            let mut w: Vec<char> = Vec::new();
            w.push(' ');
            chars_to_string(&w)
        };
        let br_open = {
            let mut w: Vec<char> = Vec::new();
            w.push(' ');
            w.push('[');
            chars_to_string(&w)
        };
        let br_close = {
            let mut w: Vec<char> = Vec::new();
            w.push(']');
            w.push(' ');
            chars_to_string(&w)
        };
        assert(sp_s@ =~= seq![' ']);
        assert(br_open@ =~= seq![' ', '[']);
        assert(br_close@ =~= seq![']', ' ']);
        let n = chunks.len();
        let mut lines: Vec<Vec<Span>> = Vec::new();
        let mut i: usize = 0;
        while i < n
            invariant
                i <= n,
                n == chunks@.len(),
                n == chunk_seq.len(),
                chunks@.map_values(|c: Vec<char>| c@) == chunk_seq,
                chunk_seq == spec_chunks(strip_tabs(rv.message), spec_payload_len(*self, rv)),
                lines@.len() == i,
                dt_s@ == spec_datetime_col(*self, rv.timestamp),
                tag_s@ == spec_tag_col(*self, rv.tag),
                sym_s@ == spec_level_col(rv.level),
                sp_s@ == seq![' '],
                br_open@ == seq![' ', '['],
                br_close@ == seq![']', ' '],
                name_s@ == spec_name_col(*self, rv),
                tag_color == spec_hashed_color(rv.tag),
                name_color == spec_hashed_color(spec_name_col(*self, rv)),
                lc == spec_level_color(rv.level),
                forall|j: int|
                    0 <= j < i ==> spec_line_ok(*self, rv, #[trigger] lines@[j]@, j, n as int),
            decreases n - i,
        {
            let marker: Vec<char> = {
                let mut w: Vec<char> = Vec::new();
                w.push(' ');
                if n == 1 {
                    w.push(' ');
                } else if i == 0 {
                    w.push('┌');
                } else if i == n - 1 {
                    w.push('└');
                } else {
                    w.push('├');
                }
                w.push(' ');
                w
            };
            assert(marker@ =~= spec_marker(i as int, n as int));
            let chunk_s = chars_to_string(&chunks[i]);
            assert(chunk_s@ == chunk_seq[i as int]);
            let mut line: Vec<Span> = Vec::new();
            line.push(Span { text: dt_s.clone(), fg: None, bg: None, intense: false });
            line.push(Span { text: sp_s.clone(), fg: None, bg: None, intense: false });
            line.push(
                Span {
                    text: tag_s.clone(),
                    fg: Some(OutColor::Palette(tag_color)),
                    bg: None,
                    intense: false,
                },
            );
            line.push(Span { text: br_open.clone(), fg: None, bg: None, intense: false });
            line.push(
                Span {
                    text: name_s.clone(),
                    fg: Some(OutColor::Palette(name_color)),
                    bg: None,
                    intense: false,
                },
            );
            line.push(Span { text: br_close.clone(), fg: None, bg: None, intense: false });
            line.push(
                Span {
                    text: sym_s.clone(),
                    fg: if lc.is_some() {
                        Some(OutColor::Black)
                    } else {
                        None
                    },
                    bg: lc,
                    intense: false,
                },
            );
            line.push(Span { text: chars_to_string(&marker), fg: None, bg: None, intense: false });
            line.push(Span { text: chunk_s, fg: lc, bg: None, intense: self.bright_colors });
            assert(spec_line_ok(*self, rv, line@, i as int, n as int));
            lines.push(line);
            i = i + 1;
        }
        lines
    }
}

/// The fixed single-line display form of a record: timestamp, pid,
/// resolved process name, severity and tag in aligned columns, and the
/// message after a colon.
pub open spec fn spec_display_ts(ts: Option<Timestamp>) -> Seq<char> {
    match ts {
        Some(t) => spec_two_digits(t.month as int) + seq!['-'] + spec_two_digits(t.day as int)
            + seq![' '] + spec_two_digits(t.hour as int) + seq![':'] + spec_two_digits(
            t.minute as int,
        ) + seq![':'] + spec_two_digits(t.second as int) + seq!['.', '0', '0', '0'],
        None => Seq::empty(),
    }
}

pub open spec fn spec_display_record(r: LogcatRecordV) -> Seq<char> {
    spec_display_ts(r.timestamp) + seq![' '] + spec_pad_left(spec_u32_dec(r.pid as int), 5) + seq![
        ' ',
    ] + spec_pad_left(r.process_name, 10) + seq![' '] + spec_pad_left(seq![r.level.spec_symbol()], 5)
        + seq![' '] + spec_pad_left(r.tag, 20) + seq![':', ' '] + r.message
}

impl LogcatRecord {
    /// The record as one line of text, in the fixed diagnostic layout.
    pub fn to_display_string(&self) -> (r: String)
        requires
            self.timestamp matches Some(t) ==> t.valid(),
        ensures
            r@ == spec_display_record(self@),
    {
        let mut v: Vec<char> = Vec::new();
        match &self.timestamp {
            Some(t) => {
                push_two_digits(&mut v, t.month);
                v.push('-');
                push_two_digits(&mut v, t.day);
                v.push(' ');
                push_two_digits(&mut v, t.hour);
                v.push(':');
                push_two_digits(&mut v, t.minute);
                v.push(':');
                push_two_digits(&mut v, t.second);
                v.push('.');
                v.push('0');
                v.push('0');
                v.push('0');
                assert(v@ =~= spec_display_ts(self.timestamp));
            },
            None => {
                assert(v@ =~= spec_display_ts(self.timestamp));
            },
        }
        v.push(' ');
        let pid_v = u32_dec_chars(self.pid);
        let pid_p = pad_left_chars(&pid_v, 5);
        push_all(&mut v, &pid_p);
        v.push(' ');
        let name_chars = str_chars(&self.process_name);
        let name_p = pad_left_chars(&name_chars, 10);
        push_all(&mut v, &name_p);
        v.push(' ');
        let mut sym_v: Vec<char> = Vec::new();
        sym_v.push(self.level.symbol());
        assert(sym_v@ =~= seq![self.level.spec_symbol()]);
        let sym_p = pad_left_chars(&sym_v, 5);
        push_all(&mut v, &sym_p);
        v.push(' ');
        let tag_chars = str_chars(&self.tag);
        let tag_p = pad_left_chars(&tag_chars, 20);
        push_all(&mut v, &tag_p);
        v.push(':');
        v.push(' ');
        let msg_chars = str_chars(&self.message);
        push_all(&mut v, &msg_chars);
        assert(v@ =~= spec_display_record(self@));
        chars_to_string(&v)
    }
}

} // verus!
