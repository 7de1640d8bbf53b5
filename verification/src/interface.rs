//! The model behind the 128 by 128 display: a title, eight log lines, the
//! input line with its cursor and an optional overlay, each with a flag that
//! says whether it has to be drawn again.
//!
//! The texts live in fixed-capacity strings. A log line takes at most 21
//! characters after its prefix, and a character whose bytes no longer fit the
//! string is left out.

use vstd::prelude::*;
use vstd::utf8::{decode_utf8, encode_utf8, valid_utf8};
use crate::text::{
    byte_len, clone22, clone6, decimal, decimal_i16, new22, new6, push22, push_str22,
    push_str6, str22, str6, text22, text6, utf8_text,
};

verus! {

/// Width of a character of the small font, in pixels.
pub const SMALL_WIDTH: usize = 4;

/// Width of a character of the large font, in pixels.
pub const BIG_WIDTH: usize = 6;

/// Width of the display, in pixels.
pub const DISPLAY_WIDTH: usize = 128;

/// The number of large characters in one line: `DISPLAY_WIDTH / BIG_WIDTH`.
pub const DISPLAY_CHAR_WIDTH: usize = 21;

/// The number of log lines.
pub const LOG_LINES: usize = 8;

/// The number of draws between the cursor bar going on and going off.
pub const BLINK_PHASE: u16 = 30;

/// The content of one log line.
pub struct LogRow {
    /// The upper prefix: the noise ratio, if the line has one.
    pub up: Seq<char>,
    /// The lower prefix: the signal strength, if the line has one.
    pub down: Seq<char>,
    /// The text of the line.
    pub body: Seq<char>,
}

impl LogRow {
    /// The line with nothing in it.
    pub open spec fn blank() -> LogRow {
        LogRow { up: Seq::empty(), down: Seq::empty(), body: Seq::empty() }
    }

    /// The line with `c` put at the end of its text, or as it is if the bytes
    /// of `c` no longer fit.
    pub open spec fn push(self, c: char) -> LogRow {
        LogRow { body: squeeze(self.body, c, 22), ..self }
    }
}

/// `text` with `c` at its end if the bytes of both fit `capacity`, else `text`.
pub open spec fn squeeze(text: Seq<char>, c: char, capacity: nat) -> Seq<char> {
    if byte_len(text) + byte_len(seq![c]) <= capacity {
        text.push(c)
    } else {
        text
    }
}

/// `text` after each character of `chars` was put at its end in turn, the
/// ones left out whose bytes did not fit `capacity` when their turn came.
pub open spec fn squeeze_all(text: Seq<char>, chars: Seq<char>, capacity: nat) -> Seq<char>
    decreases chars.len(),
{
    if chars.len() == 0 {
        text
    } else {
        squeeze(squeeze_all(text, chars.drop_last(), capacity), chars.last(), capacity)
    }
}

/// Plain characters that fit are all taken: squeezing ASCII text into room
/// that holds it leaves nothing out.
pub proof fn lemma_squeeze_ascii(text: Seq<char>, chars: Seq<char>, capacity: nat)
    requires
        vstd::utf8::is_ascii_chars(text),
        vstd::utf8::is_ascii_chars(chars),
        text.len() + chars.len() <= capacity,
    ensures
        squeeze_all(text, chars, capacity) == text + chars,
    decreases chars.len(),
{
    if chars.len() == 0 {
        assert(text + chars =~= text);
    } else {
        let front = chars.drop_last();
        let before = squeeze_all(text, front, capacity);
        lemma_squeeze_ascii(text, front, capacity);
        assert(before == text + front);
        assert(vstd::utf8::is_ascii_chars(before));
        assert(vstd::utf8::is_ascii_chars(seq![chars.last()]));
        vstd::utf8::is_ascii_chars_encode_utf8(before);
        vstd::utf8::is_ascii_chars_encode_utf8(seq![chars.last()]);
        assert(before.push(chars.last()) =~= text + chars);
    }
}

/// One line of the log.
pub struct LogLine {
    up: heapless::String<6>,
    down: heapless::String<6>,
    body: heapless::String<22>,
}

impl View for LogLine {
    type V = LogRow;

    closed spec fn view(&self) -> LogRow {
        LogRow { up: text6(self.up), down: text6(self.down), body: text22(self.body) }
    }
}

impl LogLine {
    /// The upper prefix.
    pub fn up(&self) -> (r: &str)
        ensures
            r@ == self@.up,
    {
        str6(&self.up)
    }

    /// The lower prefix.
    pub fn down(&self) -> (r: &str)
        ensures
            r@ == self@.down,
    {
        str6(&self.down)
    }

    /// The text of the line.
    pub fn body(&self) -> (r: &str)
        ensures
            r@ == self@.body,
    {
        str22(&self.body)
    }

    /// True when the line holds nothing.
    pub fn is_blank(&self) -> (r: bool)
        ensures
            r == (self@ == LogRow::blank()),
    {
        let r = str6(&self.up).is_empty() && str6(&self.down).is_empty() && str22(
            &self.body,
        ).is_empty();
        proof {
            if r {
                assert(self@.up =~= Seq::empty());
                assert(self@.down =~= Seq::empty());
                assert(self@.body =~= Seq::empty());
            }
        }
        r
    }
}

impl Default for LogLine {
    fn default() -> (r: LogLine)
        ensures
            r@ == LogRow::blank(),
    {
        LogLine { up: new6(), down: new6(), body: new22() }
    }
}

impl Clone for LogLine {
    fn clone(&self) -> (r: LogLine)
        ensures
            r@ == self@,
    {
        LogLine { up: clone6(&self.up), down: clone6(&self.down), body: clone22(&self.body) }
    }
}

/// What the display shows and what of it is due to be drawn again.
pub struct Screen {
    /// The overlay, if one is up.
    pub overlay: Option<Seq<char>>,
    /// The title line.
    pub title: Seq<char>,
    /// The log, oldest line first: always `LOG_LINES` lines.
    pub body: Seq<LogRow>,
    /// The visible part of the input line.
    pub input: Seq<char>,
    /// The cursor, counted from the start of the visible part.
    pub cursor: int,
    /// Draws since the cursor bar last went off: below twice `BLINK_PHASE`.
    pub delay: int,
    pub overlay_modified: bool,
    pub title_modified: bool,
    pub body_modified: bool,
    pub input_modified: bool,
}

impl Screen {
    /// The log has its eight lines and the draw counter is within its round.
    pub open spec fn wf(self) -> bool {
        &&& self.body.len() == LOG_LINES
        &&& 0 <= self.delay < 2 * BLINK_PHASE
    }

    /// The screen with `row` as its newest log line: the oldest line leaves.
    pub open spec fn push_line(self, row: LogRow) -> Screen {
        Screen { body: self.body.drop_first().push(row), body_modified: true, ..self }
    }

    /// The title that the bytes give: their text, or nothing if they are not
    /// UTF-8 or take more than 22 bytes.
    pub open spec fn title_of(bytes: Seq<u8>) -> Seq<char> {
        if valid_utf8(bytes) && bytes.len() <= 22 {
            decode_utf8(bytes)
        } else {
            Seq::empty()
        }
    }

    /// The screen after the title was set from `bytes`.
    pub open spec fn set_title(self, bytes: Seq<u8>) -> Screen {
        Screen { title: Self::title_of(bytes), title_modified: true, ..self }
    }

    /// The screen after the overlay was set. Taking the overlay down asks for
    /// the log to be drawn again, putting one up for the overlay itself; the
    /// overlay that is already up changes nothing.
    pub open spec fn set_overlay(self, overlay: Option<Seq<char>>) -> Screen {
        if overlay == self.overlay {
            self
        } else if overlay is None {
            Screen { overlay, body_modified: true, ..self }
        } else {
            Screen { overlay, overlay_modified: true, ..self }
        }
    }
}

/// The two texts are the same.
fn same_text(a: &str, b: &str) -> (r: bool)
    ensures
        r == (a@ == b@),
{
    let x = a.as_bytes();
    let y = b.as_bytes();
    proof {
        vstd::utf8::encode_utf8_decode_utf8(a@);
        vstd::utf8::encode_utf8_decode_utf8(b@);
    }
    if x.len() != y.len() {
        return false;
    }
    let mut i: usize = 0;
    while i < x.len()
        invariant
            i <= x.len(),
            x.len() == y.len(),
            x@ == encode_utf8(a@),
            y@ == encode_utf8(b@),
            forall|j: int| 0 <= j < i ==> x@[j] == y@[j],
        decreases x.len() - i,
    {
        if x[i] != y[i] {
            return false;
        }
        i += 1;
    }
    assert(x@ =~= y@);
    true
}

/// The model of the display.
pub struct Oled128x128 {
    overlay: Option<&'static str>,
    title: heapless::String<22>,
    body: [LogLine; 8],
    input: heapless::String<22>,
    cursor: usize,
    delay: u16,
    overlay_modified: bool,
    title_modified: bool,
    body_modified: bool,
    input_modified: bool,
}

impl View for Oled128x128 {
    type V = Screen;

    closed spec fn view(&self) -> Screen {
        Screen {
            overlay: match self.overlay {
                Some(s) => Some(s@),
                None => None,
            },
            title: text22(self.title),
            body: Seq::new(8, |i: int| self.body@[i]@),
            input: text22(self.input),
            cursor: self.cursor as int,
            delay: self.delay as int,
            overlay_modified: self.overlay_modified,
            title_modified: self.title_modified,
            body_modified: self.body_modified,
            input_modified: self.input_modified,
        }
    }
}

impl Oled128x128 {
    /// The draw counter stays within one round of the cursor bar.
    #[verifier::type_invariant]
    closed spec fn inv(&self) -> bool {
        self.delay < 2 * BLINK_PHASE
    }

    /// A display that keeps its invariant shows a well-formed screen.
    proof fn lemma_inv_view(&self)
        requires
            self.inv(),
        ensures
            self@.wf(),
    {
    }

    /// An empty display with nothing due to be drawn.
    pub fn new() -> (r: Self)
        ensures
            r@ == (Screen {
                overlay: None,
                title: Seq::empty(),
                body: Seq::new(8, |i: int| LogRow::blank()),
                input: Seq::empty(),
                cursor: 0,
                delay: 0,
                overlay_modified: false,
                title_modified: false,
                body_modified: false,
                input_modified: false,
            }),
            r@.wf(),
    {
        let r = Self {
            overlay: None,
            title: new22(),
            body: [
                LogLine::default(),
                LogLine::default(),
                LogLine::default(),
                LogLine::default(),
                LogLine::default(),
                LogLine::default(),
                LogLine::default(),
                LogLine::default(),
            ],
            input: new22(),
            cursor: 0,
            delay: 0,
            overlay_modified: false,
            title_modified: false,
            body_modified: false,
            input_modified: false,
        };
        proof {
            assert(r@.body =~= Seq::new(8, |i: int| LogRow::blank()));
        }
        r
    }

    /// The overlay, if one is up.
    pub fn overlay(&self) -> (r: Option<&'static str>)
        ensures
            r is Some == self@.overlay is Some,
            r matches Some(s) ==> self@.overlay == Some(s@),
    {
        self.overlay
    }

    /// The title line.
    pub fn title(&self) -> (r: &str)
        ensures
            r@ == self@.title,
    {
        str22(&self.title)
    }

    /// The visible part of the input line.
    pub fn input(&self) -> (r: &str)
        ensures
            r@ == self@.input,
    {
        str22(&self.input)
    }

    /// The cursor, counted from the start of the visible part of the input.
    pub fn cursor(&self) -> (r: usize)
        ensures
            r == self@.cursor,
    {
        self.cursor
    }

    /// The log line at `index`, the oldest being line 0.
    pub fn line(&self, index: usize) -> (r: &LogLine)
        requires
            index < LOG_LINES,
        ensures
            r@ == self@.body[index as int],
    {
        &self.body[index]
    }
}

/// A display as the rest of the device writes to it.
pub trait Interface {
    /// Sets the title line.
    fn set_title(&mut self, title: &[u8]);

    /// Sets the input line and the cursor in it.
    fn set_input(&mut self, input: &[u8], cursor: usize);

    /// Puts an overlay up, or takes it down.
    fn set_overlay(&mut self, overlay: Option<&'static str>);

    /// Appends a message to the log, with the link quality it came with.
    fn add_log(&mut self, body: &[u8], snr: Option<i16>, rssi: Option<i16>);
}

/// The characters of an optional text.
pub open spec fn text_of(s: Option<&'static str>) -> Option<Seq<char>> {
    match s {
        Some(s) => Some(s@),
        None => None,
    }
}

/// The decimal form of an optional number: nothing for none.
pub open spec fn prefix_of(n: Option<i16>) -> Seq<char> {
    match n {
        Some(v) => decimal(v as int),
        None => Seq::empty(),
    }
}

/// The number of characters of the input that are scrolled out of view on
/// the left. An input of more than 21 characters is shown from ten
/// characters before the cursor on, but never past its last 21 characters.
pub open spec fn scrolled(len: int, cursor: int) -> int {
    if len <= 21 {
        0
    } else {
        let lead = if cursor > 10 {
            cursor - 10
        } else {
            0
        };
        if lead < len - 21 {
            lead
        } else {
            len - 21
        }
    }
}

/// Where the cursor bar stands, in pixels from the left: one pixel into the
/// character cell of the cursor, and at most at pixel 126.
pub open spec fn bar_x(cursor: int) -> int {
    if cursor * 6 + 1 > 126 {
        126
    } else {
        cursor * 6 + 1
    }
}

/// A log message on its way into the log: the display, the line that is
/// being filled, and the number of characters that the line still takes.
pub struct Typeset {
    pub screen: Screen,
    pub line: LogRow,
    pub available: int,
}

impl Typeset {
    /// The line goes into the log and a blank line of full width is begun.
    pub open spec fn break_line(self) -> Typeset {
        Typeset { screen: self.screen.push_line(self.line), line: LogRow::blank(), available: 21 }
    }

    /// One character more: a carriage return or a line feed breaks the line;
    /// any other character goes into the line, which is broken first if it is
    /// full.
    pub open spec fn feed(self, c: char) -> Typeset {
        if c == '\r' || c == '\n' {
            self.break_line()
        } else {
            let t = if self.available == 0 {
                self.break_line()
            } else {
                self
            };
            Typeset { line: t.line.push(c), available: t.available - 1, ..t }
        }
    }

    /// The characters of `chars` fed one after the other.
    pub open spec fn feed_all(self, chars: Seq<char>) -> Typeset
        decreases chars.len(),
    {
        if chars.len() == 0 {
            self
        } else {
            self.feed_all(chars.drop_last()).feed(chars.last())
        }
    }

    /// The display once the message is through: the last line goes into the
    /// log unless it is blank.
    pub open spec fn finish(self) -> Screen {
        if self.line == LogRow::blank() {
            self.screen
        } else {
            self.screen.push_line(self.line)
        }
    }
}

/// What a draw has to put on the display.
#[derive(Clone, Copy, PartialEq, Eq, Structural, Debug)]
pub struct Redraw {
    /// The input line is cleared and drawn again.
    pub input: bool,
    /// The cursor bar is drawn at these pixels from the left.
    pub bar: Option<i32>,
    /// The title line is cleared and drawn again.
    pub title: bool,
    /// The log is cleared and drawn again.
    pub body: bool,
    /// The overlay is drawn over the rest.
    pub overlay: bool,
}

impl Screen {
    /// The screen after the input line was set from `bytes`, with the cursor
    /// at character `cursor` of them.
    pub open spec fn set_input(self, bytes: Seq<u8>, cursor: int) -> Screen {
        if !valid_utf8(bytes) {
            Screen { input: "## ERROR ##"@, cursor: 0, input_modified: true, ..self }
        } else {
            let chars = decode_utf8(bytes);
            let skip = scrolled(chars.len() as int, cursor);
            let input = if chars.len() > 21 {
                squeeze_all(Seq::empty(), chars.subrange(skip, skip + 21), 22)
            } else if bytes.len() <= 22 {
                chars
            } else {
                Seq::empty()
            };
            Screen { input, cursor: cursor - skip, input_modified: true, ..self }
        }
    }

    /// The typesetting of a message at its start: a line that holds the two
    /// prefixes and takes as many characters as fit beside them.
    pub open spec fn begin_log(self, snr: Option<i16>, rssi: Option<i16>) -> Typeset {
        let up = prefix_of(snr);
        let down = prefix_of(rssi);
        let widest = if up.len() > down.len() {
            up.len()
        } else {
            down.len()
        };
        Typeset {
            screen: self,
            line: LogRow { up, down, body: Seq::empty() },
            available: (128 - widest * 4) / 6,
        }
    }

    /// The screen after a message was logged. Bytes that are not UTF-8 are
    /// logged as a fixed note in their place.
    pub open spec fn add_log(self, body: Seq<u8>, snr: Option<i16>, rssi: Option<i16>) -> Screen {
        let start = self.begin_log(snr, rssi);
        if valid_utf8(body) {
            start.feed_all(decode_utf8(body)).finish()
        } else {
            Typeset { line: LogRow { body: "__UNPARSABLE__"@, ..start.line }, ..start }.finish()
        }
    }

    /// The screen after a draw, and what the draw puts on the display. The
    /// cursor bar goes on at draw `BLINK_PHASE` of each round and off, with
    /// the input line drawn again, at draw twice that.
    pub open spec fn draw(self) -> (Screen, Redraw) {
        let delay = self.delay + 1;
        (
            Screen {
                delay: if delay == 60 {
                    0
                } else {
                    delay
                },
                input_modified: delay == 60,
                title_modified: false,
                body_modified: false,
                ..self
            },
            Redraw {
                input: self.input_modified,
                bar: if delay == 30 {
                    Some(bar_x(self.cursor) as i32)
                } else {
                    None
                },
                title: self.title_modified,
                body: self.body_modified,
                overlay: self.overlay_modified && self.overlay is Some,
            },
        )
    }
}

/// The digits of a number below 100000 are at most five, all of them ASCII.
pub proof fn lemma_digits(n: nat)
    requires
        n < 100_000,
    ensures
        1 <= crate::text::digits(n).len() <= 5,
        vstd::utf8::is_ascii_chars(crate::text::digits(n)),
    decreases n,
{
    reveal_with_fuel(crate::text::digits, 6);
}

/// The decimal form of a 16-bit number takes between one and six bytes, one
/// for each character.
pub proof fn lemma_decimal_fits(n: i16)
    ensures
        1 <= decimal(n as int).len() <= 6,
        byte_len(decimal(n as int)) == decimal(n as int).len(),
{
    if n < 0 {
        lemma_digits((-n) as nat);
    } else {
        lemma_digits(n as nat);
    }
    vstd::utf8::is_ascii_chars_encode_utf8(decimal(n as int));
}

impl Oled128x128 {
    /// Puts `line` into the log as its newest line and leaves `line` blank.
    fn push_line(&mut self, line: &mut LogLine)
        ensures
            final(self)@ == old(self)@.push_line(old(line)@),
            final(line)@ == LogRow::blank(),
    {
        proof {
            use_type_invariant(&*self);
        }
        self.body_modified = true;
        let mut i: usize = 1;
        while i < 8
            invariant
                1 <= i <= 8,
                self.delay < 2 * BLINK_PHASE,
                *self == (Oled128x128 { body: self.body, body_modified: true, ..*old(self) }),
                forall|j: int| 0 <= j < i - 1 ==> self.body@[j]@ == old(self).body@[j + 1]@,
                forall|j: int| i - 1 <= j < 8 ==> self.body@[j]@ == old(self).body@[j]@,
            decreases 8 - i,
        {
            let next = self.body[i].clone();
            self.body[i - 1] = next;
            i += 1;
        }
        let newest = line.clone();
        self.body[7] = newest;
        *line = LogLine::default();
        proof {
            assert(self@.body =~= old(self)@.body.drop_first().push(old(line)@));
        }
    }

    /// Counts one draw and says what it has to put on the display.
    pub fn draw(&mut self) -> (r: Redraw)
        ensures
            (final(self)@, r) == old(self)@.draw(),
            old(self)@.wf(),
            final(self)@.wf(),
    {
        proof {
            use_type_invariant(&*self);
            self.lemma_inv_view();
        }
        let input = self.input_modified;
        let title = self.title_modified;
        let body = self.body_modified;
        let overlay = self.overlay_modified && self.overlay.is_some();
        let delay = self.delay + 1;
        let bar = if delay == BLINK_PHASE {
            if self.cursor >= DISPLAY_CHAR_WIDTH {
                Some(126i32)
            } else {
                Some((self.cursor * BIG_WIDTH + 1) as i32)
            }
        } else {
            None
        };
        self.input_modified = delay == 2 * BLINK_PHASE;
        self.delay = if delay == 2 * BLINK_PHASE {
            0
        } else {
            delay
        };
        self.title_modified = false;
        self.body_modified = false;
        Redraw { input, bar, title, body, overlay }
    }
}

/// The 21 characters of `s` from character `skip` on, collected into a string
/// of 22 bytes: a character whose bytes no longer fit is left out.
fn window(s: &str, skip: usize) -> (text: heapless::String<22>)
    requires
        skip + 21 <= s@.len() <= usize::MAX,
    ensures
        text22(text) == squeeze_all(Seq::empty(), s@.subrange(skip as int, skip + 21), 22),
{
    let mut text = new22();
    let mut k: usize = 0;
    for c in it: s.chars()
        invariant
            it.seq() == s@,
            k == it.index(),
            skip + 21 <= s@.len() <= usize::MAX,
            text22(text) == squeeze_all(
                Seq::empty(),
                s@.subrange(
                    skip as int,
                    if k < skip {
                        skip as int
                    } else if k < skip + 21 {
                        k as int
                    } else {
                        skip + 21
                    },
                ),
                22,
            ),
    {
        if skip <= k && k < skip + DISPLAY_CHAR_WIDTH {
            let _ = push22(&mut text, c);
            proof {
                let shown = s@.subrange(skip as int, k + 1);
                assert(shown.drop_last() =~= s@.subrange(skip as int, k as int));
                assert(shown.last() == c);
            }
        }
        k += 1;
    }
    text
}

impl Interface for Oled128x128 {
    fn set_overlay(&mut self, overlay: Option<&'static str>)
        ensures
            final(self)@ == old(self)@.set_overlay(text_of(overlay)),
            old(self)@.wf(),
            final(self)@.wf(),
    {
        proof {
            use_type_invariant(&*self);
            self.lemma_inv_view();
        }
        proof {
            use_type_invariant(&*self);
        }
        let same = match (overlay, self.overlay) {
            (Some(a), Some(b)) => same_text(a, b),
            (None, None) => true,
            _ => false,
        };
        if !same {
            self.overlay = overlay;
            if overlay.is_none() {
                self.body_modified = true;
            } else {
                self.overlay_modified = true;
            }
        }
    }

    fn set_title(&mut self, title: &[u8])
        ensures
            final(self)@ == old(self)@.set_title(title@),
            old(self)@.wf(),
            final(self)@.wf(),
    {
        proof {
            use_type_invariant(&*self);
            self.lemma_inv_view();
        }
        proof {
            use_type_invariant(&*self);
        }
        let mut text = new22();
        if let Some(s) = utf8_text(title) {
            proof {
                vstd::utf8::encode_utf8_decode_utf8(s@);
                assert(byte_len(Seq::<char>::empty()) == 0);
                assert(Seq::<char>::empty() + s@ =~= s@);
            }
            let _ = push_str22(&mut text, s);
        }
        self.title = text;
        self.title_modified = true;
    }

    fn set_input(&mut self, input: &[u8], cursor: usize)
        ensures
            final(self)@ == old(self)@.set_input(input@, cursor as int),
            old(self)@.wf(),
            final(self)@.wf(),
    {
        proof {
            use_type_invariant(&*self);
            self.lemma_inv_view();
        }
        proof {
            use_type_invariant(&*self);
            assert(byte_len(Seq::<char>::empty()) == 0);
        }
        let mut text = new22();
        match utf8_text(input) {
            Some(s) => {
                proof {
                    vstd::utf8::encode_utf8_decode_utf8(s@);
                    assert(Seq::<char>::empty() + s@ =~= s@);
                }
                let len = s.unicode_len();
                if len > DISPLAY_CHAR_WIDTH {
                    let lead = if cursor > DISPLAY_CHAR_WIDTH / 2 {
                        cursor - DISPLAY_CHAR_WIDTH / 2
                    } else {
                        0
                    };
                    let skip = if lead < len - DISPLAY_CHAR_WIDTH {
                        lead
                    } else {
                        len - DISPLAY_CHAR_WIDTH
                    };
                    self.cursor = cursor - skip;
                    text = window(s, skip);
                } else {
                    self.cursor = cursor;
                    let _ = push_str22(&mut text, s);
                }
            },
            None => {
                proof {
                    lemma_notes_fit();
                    assert(Seq::<char>::empty() + "## ERROR ##"@ =~= "## ERROR ##"@);
                }
                self.cursor = 0;
                let fit = push_str22(&mut text, "## ERROR ##");
                assert(fit);
            },
        }
        self.input = text;
        self.input_modified = true;
    }

    fn add_log(&mut self, body: &[u8], snr: Option<i16>, rssi: Option<i16>)
        ensures
            final(self)@ == old(self)@.add_log(body@, snr, rssi),
            old(self)@.wf(),
            final(self)@.wf(),
    {
        proof {
            use_type_invariant(&*self);
            self.lemma_inv_view();
        }
        let mut line = LogLine::default();
        if let Some(snr) = snr {
            let text = decimal_i16(snr);
            proof {
                lemma_decimal_fits(snr);
                assert(byte_len(Seq::<char>::empty()) == 0);
                assert(Seq::<char>::empty() + text@ =~= text@);
            }
            let fit = push_str6(&mut line.up, text.as_str());
            assert(fit);
        }
        if let Some(rssi) = rssi {
            let text = decimal_i16(rssi);
            proof {
                lemma_decimal_fits(rssi);
                assert(byte_len(Seq::<char>::empty()) == 0);
                assert(Seq::<char>::empty() + text@ =~= text@);
            }
            let fit = push_str6(&mut line.down, text.as_str());
            assert(fit);
        }
        let ups = str6(&line.up).len();
        let downs = str6(&line.down).len();
        proof {
            if let Some(v) = snr {
                lemma_decimal_fits(v);
            } else {
                assert(byte_len(Seq::<char>::empty()) == 0);
            }
            if let Some(v) = rssi {
                lemma_decimal_fits(v);
            } else {
                assert(byte_len(Seq::<char>::empty()) == 0);
            }
        }
        let widest = if ups > downs {
            ups
        } else {
            downs
        };
        let mut available = (DISPLAY_WIDTH - widest * SMALL_WIDTH) / BIG_WIDTH;
        let ghost start = old(self)@.begin_log(snr, rssi);
        assert(start == (Typeset { screen: self@, line: line@, available: available as int }));
        match utf8_text(body) {
            Some(s) => {
                proof {
                    vstd::utf8::encode_utf8_decode_utf8(s@);
                }
                for c in it: s.chars()
                    invariant
                        it.seq() == s@,
                        available <= 21,
                        (Typeset { screen: self@, line: line@, available: available as int })
                            == start.feed_all(s@.take(it.index())),
                {
                    proof {
                        assert(s@.take(it.index() + 1).drop_last() =~= s@.take(it.index()));
                    }
                    if c == '\r' || c == '\n' {
                        self.push_line(&mut line);
                        available = DISPLAY_CHAR_WIDTH;
                    } else {
                        if available == 0 {
                            self.push_line(&mut line);
                            available = DISPLAY_CHAR_WIDTH;
                        }
                        let _ = push22(&mut line.body, c);
                        available -= 1;
                    }
                }
                proof {
                    assert(s@.take(s@.len() as int) =~= s@);
                }
            },
            None => {
                let fit = push_str22(&mut line.body, "__UNPARSABLE__");
                proof {
                    lemma_notes_fit();
                    assert(byte_len(Seq::<char>::empty()) == 0);
                    assert(Seq::<char>::empty() + "__UNPARSABLE__"@ =~= "__UNPARSABLE__"@);
                    assert(fit);
                }
            },
        }
        if !line.is_blank() {
            self.push_line(&mut line);
        }
        proof {
            use_type_invariant(&*self);
            self.lemma_inv_view();
        }
    }
}

/// The two fixed notes are ASCII and fit a line.
proof fn lemma_notes_fit()
    ensures
        byte_len("## ERROR ##"@) == 11,
        byte_len("__UNPARSABLE__"@) == 14,
{
    reveal_strlit("## ERROR ##");
    reveal_strlit("__UNPARSABLE__");
    vstd::utf8::is_ascii_chars_encode_utf8("## ERROR ##"@);
    vstd::utf8::is_ascii_chars_encode_utf8("__UNPARSABLE__"@);
}

} // verus!
