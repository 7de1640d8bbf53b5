//! The edit buffer that one keyboard poll after another writes into.
//!
//! The buffer is a fixed array of `S` bytes that holds the text left-packed,
//! followed by zeros; the last byte always stays zero, so the text is at most
//! `S - 1` bytes long. Its model is an [`EditLine`]: the text, the cursor, the
//! mask seen at the last poll and the flag that arms the next character.

use vstd::prelude::*;
use crate::keys::{is_printable, Keys};

verus! {

/// What one poll of the keyboard did to the edit buffer.
#[derive(Clone, Copy, PartialEq, Eq, Structural, Debug)]
pub enum InputState {
    /// Nothing to do for this mask: it is the one seen at the last poll, or it
    /// resolves to nothing that the buffer acts on.
    Running(Keys),
    /// The text or the cursor changed.
    Updated,
    /// The submit key was pressed: the text is ready to be sent.
    Validated,
    /// The operation would leave the buffer's bounds; nothing was changed.
    Overflow,
    /// A star chord that the buffer does not know; the mask is the chord
    /// without the star.
    NotForMe(Keys),
}

/// The mathematical content of an edit buffer.
pub struct EditLine {
    /// The bytes typed so far, none of them zero.
    pub text: Seq<u8>,
    /// Where the next character goes: between 0 and the length of the text.
    pub cursor: int,
    /// The mask seen at the last poll.
    pub last: Keys,
    /// Whether the next resolved character may be inserted. It is cleared by
    /// an insertion and set again by a mask that resolves to no character.
    pub ready: bool,
}

impl EditLine {
    /// The longest text that a buffer of `capacity` bytes holds: one byte is
    /// kept for the terminator.
    pub open spec fn room(capacity: int) -> int {
        if capacity <= 0 {
            0
        } else {
            capacity - 1
        }
    }

    /// The cursor lies within the text, the text leaves the terminator its
    /// byte, and no byte of the text is zero.
    pub open spec fn wf(self, capacity: int) -> bool {
        &&& 0 <= self.cursor <= self.text.len()
        &&& self.text.len() <= Self::room(capacity)
        &&& forall|i: int| 0 <= i < self.text.len() ==> self.text[i] != 0
    }

    /// The line with `c` put in at the cursor and the cursor moved past it.
    pub open spec fn insert(self, c: u8) -> EditLine {
        EditLine { text: self.text.insert(self.cursor, c), cursor: self.cursor + 1, ..self }
    }

    /// The line with the byte before the cursor taken out and the cursor moved
    /// back by one.
    pub open spec fn delete(self) -> EditLine {
        EditLine { text: self.text.remove(self.cursor - 1), cursor: self.cursor - 1, ..self }
    }

    /// The text with the mark `><` put in where the cursor stands.
    pub open spec fn marked(self) -> Seq<u8> {
        self.text.take(self.cursor) + seq![62u8, 60u8] + self.text.skip(self.cursor)
    }

    /// What a star chord does to text and cursor. `chord` is the mask without
    /// the star: the right shift deletes, Q moves left, E moves right.
    pub open spec fn chord(self, chord: u32) -> (EditLine, InputState) {
        if chord == Keys::ShiftR {
            if self.cursor == 0 {
                (self, InputState::Overflow)
            } else {
                (self.delete(), InputState::Updated)
            }
        } else if chord == Keys::Q {
            if self.cursor == 0 {
                (self, InputState::Overflow)
            } else {
                (EditLine { cursor: self.cursor - 1, ..self }, InputState::Updated)
            }
        } else if chord == Keys::E {
            if self.cursor >= self.text.len() {
                (self, InputState::Overflow)
            } else {
                (EditLine { cursor: self.cursor + 1, ..self }, InputState::Updated)
            }
        } else {
            (self, InputState::NotForMe(Keys { bits: chord }))
        }
    }

    /// What a mask without the star does. A mask that resolves to no character
    /// arms the line, and is the submit request if it is the sharp key alone.
    /// A character is inserted only into an armed line, which it disarms; a
    /// line whose text already fills the room reports overflow instead.
    pub open spec fn typed(self, capacity: int, key: Keys) -> (EditLine, InputState) {
        match key.character() {
            None => (
                EditLine { ready: true, ..self },
                if key.bits == Keys::Sharp {
                    InputState::Validated
                } else {
                    InputState::Running(key)
                },
            ),
            Some(c) => if !self.ready {
                (self, InputState::Running(key))
            } else if self.text.len() >= Self::room(capacity) {
                (EditLine { ready: false, ..self }, InputState::Overflow)
            } else {
                (EditLine { ready: false, ..self.insert(c as u8) }, InputState::Updated)
            },
        }
    }

    /// The line after one poll that read `key`, and what the poll reports.
    /// A mask equal to the last one changes nothing; otherwise a mask with the
    /// star is a chord and any other mask is typed. The mask is remembered.
    pub open spec fn process(self, capacity: int, key: Keys) -> (EditLine, InputState) {
        if key == self.last {
            (self, InputState::Running(key))
        } else {
            let (line, event) = if key.bits & Keys::Star == Keys::Star {
                self.chord(key.bits ^ Keys::Star)
            } else {
                self.typed(capacity, key)
            };
            (EditLine { last: key, ..line }, event)
        }
    }
}

/// The bytes of `b` are non-zero up to position `n` and zero from there on.
spec fn packed(b: Seq<u8>, n: int) -> bool {
    &&& 0 <= n <= b.len()
    &&& forall|i: int| 0 <= i < n ==> b[i] != 0
    &&& forall|i: int| n <= i < b.len() ==> b[i] == 0
}

/// The length of the text in a left-packed buffer.
spec fn content_len(b: Seq<u8>) -> int {
    choose|n: int| packed(b, n)
}

/// A buffer is left-packed at one length only.
proof fn lemma_packed_unique(b: Seq<u8>, n: int, m: int)
    requires
        packed(b, n),
        packed(b, m),
    ensures
        n == m,
{
    if n < m {
        assert(b[n] == 0);
    }
    if m < n {
        assert(b[m] == 0);
    }
}

/// The length of a buffer that is left-packed at `n` is `n`.
proof fn lemma_content_len(b: Seq<u8>, n: int)
    requires
        packed(b, n),
    ensures
        content_len(b) == n,
{
    lemma_packed_unique(b, n, content_len(b));
}

/// A line edited through the keyboard, in a buffer of `S` bytes.
pub struct InputBuffer<const S: usize> {
    buffer: [u8; S],
    last: Keys,
    ready: bool,
    cursor: usize,
}

impl<const S: usize> View for InputBuffer<S> {
    type V = EditLine;

    closed spec fn view(&self) -> EditLine {
        EditLine {
            text: self.buffer@.take(content_len(self.buffer@)),
            cursor: self.cursor as int,
            last: self.last,
            ready: self.ready,
        }
    }
}

impl<const S: usize> InputBuffer<S> {
    /// The buffer is left-packed, its last byte is free, and the cursor lies
    /// within the text.
    #[verifier::type_invariant]
    closed spec fn inv(&self) -> bool {
        &&& packed(self.buffer@, content_len(self.buffer@))
        &&& content_len(self.buffer@) <= EditLine::room(S as int)
        &&& self.cursor <= content_len(self.buffer@)
    }

    /// A buffer that keeps its invariant shows a well-formed line.
    proof fn lemma_inv_view(&self)
        requires
            self.inv(),
        ensures
            self@.wf(S as int),
            self@.text.len() == content_len(self.buffer@),
    {
    }

    /// An empty line, armed, with no key seen yet.
    pub fn new() -> (r: Self)
        ensures
            r@ == (EditLine { text: Seq::empty(), cursor: 0, last: Keys { bits: 0 }, ready: true }),
            r@.wf(S as int),
    {
        let buffer = [0u8;S];
        proof {
            assert(packed(buffer@, 0));
            lemma_content_len(buffer@, 0);
        }
        let r = Self { buffer, last: Keys::none(), ready: true, cursor: 0 };
        proof {
            assert(r@.text =~= Seq::empty());
        }
        r
    }

    /// The length of the text.
    pub fn len(&self) -> (n: usize)
        ensures
            n == self@.text.len(),
            self@.wf(S as int),
    {
        proof {
            use_type_invariant(self);
            self.lemma_inv_view();
        }
        let mut n: usize = 0;
        while n < S && self.buffer[n] != 0
            invariant
                n <= S,
                forall|i: int| 0 <= i < n ==> self.buffer@[i] != 0,
                packed(self.buffer@, content_len(self.buffer@)),
            decreases S - n,
        {
            n += 1;
        }
        proof {
            let m = content_len(self.buffer@);
            if n < m {
                assert(self.buffer@[n as int] != 0);
            }
            if m < n {
                assert(self.buffer@[m] == 0);
            }
        }
        n
    }

    /// The text.
    pub fn get_data(&self) -> (r: &[u8])
        ensures
            r@ == self@.text,
            self@.wf(S as int),
    {
        let n = self.len();
        let r = &self.buffer[0..n];
        proof {
            use_type_invariant(self);
            self.lemma_inv_view();
            assert(r@ =~= self@.text);
        }
        r
    }

    /// The position of the cursor.
    pub fn get_cursor(&self) -> (r: usize)
        ensures
            r == self@.cursor,
            self@.wf(S as int),
    {
        proof {
            use_type_invariant(self);
            self.lemma_inv_view();
        }
        self.cursor
    }

    /// The text as it is shown in a log: with the mark `><` at the cursor.
    pub fn format(&self) -> (r: Vec<u8>)
        ensures
            r@ == self@.marked(),
    {
        let data = self.get_data();
        let at = self.get_cursor();
        let mut out: Vec<u8> = Vec::new();
        let mut i: usize = 0;
        while i < at
            invariant
                i <= at <= data@.len(),
                out@ == data@.take(i as int),
            decreases at - i,
        {
            out.push(data[i]);
            i += 1;
        }
        out.push(62);
        out.push(60);
        while i < data.len()
            invariant
                at <= i <= data@.len(),
                out@ == data@.take(at as int) + seq![62u8, 60u8] + data@.subrange(at as int, i as int),
            decreases data.len() - i,
        {
            out.push(data[i]);
            i += 1;
        }
        proof {
            assert(data@.subrange(at as int, data@.len() as int) == data@.skip(at as int));
        }
        out
    }

    /// Empties the text and moves the cursor to the start. The last mask and
    /// the arming flag stay as they are.
    pub fn clear(&mut self)
        ensures
            final(self)@ == (EditLine { text: Seq::empty(), cursor: 0, ..old(self)@ }),
            final(self)@.wf(S as int),
    {
        let buffer = [0u8;S];
        proof {
            use_type_invariant(&*self);
            assert(packed(buffer@, 0));
            lemma_content_len(buffer@, 0);
        }
        self.cursor = 0;
        self.buffer = buffer;
        proof {
            assert(self@.text =~= Seq::empty());
        }
    }

    /// Takes the mask read at this poll and edits the line by it.
    pub fn process_input(&mut self, key: Keys) -> (r: InputState)
        ensures
            (final(self)@, r) == old(self)@.process(S as int, key),
            old(self)@.wf(S as int),
            final(self)@.wf(S as int),
    {
        proof {
            use_type_invariant(&*self);
            self.lemma_inv_view();
        }
        let mut ret = InputState::Running(key);
        if key != self.last {
            if key.contains(Keys { bits: Keys::Star }) {
                let chord = key.xor(Keys { bits: Keys::Star });
                if chord.bits == Keys::ShiftR {
                    if self.cursor == 0 {
                        ret = InputState::Overflow;
                    } else {
                        self.remove_before_cursor();
                        ret = InputState::Updated;
                    }
                } else if chord.bits == Keys::Q {
                    if self.cursor == 0 {
                        ret = InputState::Overflow;
                    } else {
                        self.cursor -= 1;
                        ret = InputState::Updated;
                    }
                } else if chord.bits == Keys::E {
                    if self.cursor >= self.len() {
                        ret = InputState::Overflow;
                    } else {
                        self.cursor += 1;
                        ret = InputState::Updated;
                    }
                } else {
                    ret = InputState::NotForMe(chord);
                }
            } else {
                match key.get_one_char() {
                    None => {
                        self.ready = true;
                        if key.bits == Keys::Sharp {
                            ret = InputState::Validated;
                        }
                    },
                    Some(car) => {
                        if self.ready {
                            let n = self.len();
                            if S == 0 || n >= S - 1 {
                                ret = InputState::Overflow;
                            } else {
                                self.insert_at_cursor(car as u8);
                                ret = InputState::Updated;
                            }
                            proof {
                                use_type_invariant(&*self);
                            }
                            self.ready = false;
                        }
                    },
                }
            }
            proof {
                use_type_invariant(&*self);
            }
            self.last = key;
        }
        ret
    }

    /// Puts `c` in at the cursor, moving the bytes behind it one place right.
    fn insert_at_cursor(&mut self, c: u8)
        requires
            c != 0,
            old(self)@.text.len() < EditLine::room(S as int),
        ensures
            final(self)@ == old(self)@.insert(c),
            final(self)@.wf(S as int),
    {
        proof {
            use_type_invariant(&*self);
            self.lemma_inv_view();
        }
        let n = self.len();
        let at = self.cursor;
        let ghost before = self.buffer@;
        let mut buf = self.buffer;
        let mut i = n;
        while i > at
            invariant
                at <= i <= n < S,
                buf@.len() == S,
                before.len() == S,
                forall|j: int| 0 <= j <= i ==> buf@[j] == before[j],
                forall|j: int| i < j <= n ==> buf@[j] == before[j - 1],
                forall|j: int| n < j < S ==> buf@[j] == before[j],
            decreases i,
        {
            buf[i] = buf[i - 1];
            i -= 1;
        }
        buf[at] = c;
        proof {
            assert(packed(before, n as int));
            assert forall|j: int| 0 <= j < n + 1 implies buf@[j] != 0 by {
                if j < at {
                    assert(buf@[j] == before[j]);
                } else if j > at {
                    assert(buf@[j] == before[j - 1]);
                }
            }
            assert forall|j: int| n + 1 <= j < S implies buf@[j] == 0 by {
                assert(buf@[j] == before[j]);
            }
            assert(packed(buf@, n + 1));
            lemma_content_len(buf@, n + 1);
        }
        self.buffer = buf;
        self.cursor = at + 1;
        proof {
            assert(self@.text =~= old(self)@.text.insert(at as int, c));
        }
    }

    /// Takes out the byte before the cursor, moving the bytes behind it one
    /// place left.
    fn remove_before_cursor(&mut self)
        requires
            old(self)@.cursor > 0,
        ensures
            final(self)@ == old(self)@.delete(),
            final(self)@.wf(S as int),
    {
        proof {
            use_type_invariant(&*self);
            self.lemma_inv_view();
        }
        let n = self.len();
        let at = self.cursor;
        let ghost before = self.buffer@;
        let mut buf = self.buffer;
        let mut i = at;
        while i < n
            invariant
                0 < at <= i <= n < S,
                buf@.len() == S,
                before.len() == S,
                forall|j: int| 0 <= j < at - 1 ==> buf@[j] == before[j],
                forall|j: int| at - 1 <= j < i - 1 ==> buf@[j] == before[j + 1],
                forall|j: int| i - 1 <= j < S ==> buf@[j] == before[j],
            decreases n - i,
        {
            buf[i - 1] = buf[i];
            i += 1;
        }
        buf[n - 1] = 0;
        proof {
            assert(packed(before, n as int));
            assert forall|j: int| 0 <= j < n - 1 implies buf@[j] != 0 by {
                if j < at - 1 {
                    assert(buf@[j] == before[j]);
                } else {
                    assert(buf@[j] == before[j + 1]);
                }
            }
            assert forall|j: int| n - 1 <= j < S implies buf@[j] == 0 by {
                if j > n - 1 {
                    assert(buf@[j] == before[j]);
                }
            }
            assert(packed(buf@, n - 1));
            lemma_content_len(buf@, n - 1);
        }
        self.cursor = at - 1;
        self.buffer = buf;
        proof {
            assert(self@.text =~= old(self)@.text.remove(at - 1));
        }
    }
}

/// Deleting right after an insertion gives the line back: text and cursor are
/// what they were before the character went in.
pub proof fn lemma_insert_then_delete(line: EditLine, c: u8)
    requires
        0 <= line.cursor <= line.text.len(),
    ensures
        line.insert(c).delete() == line,
{
    assert(line.text.insert(line.cursor, c).remove(line.cursor) =~= line.text);
}

/// A poll that inserts a character, followed by the delete chord, restores the
/// text and the cursor of the line.
pub proof fn lemma_type_then_delete(line: EditLine, capacity: int, key: Keys)
    requires
        line.wf(capacity),
        line.process(capacity, key).1 == InputState::Updated,
        key.bits & Keys::Star != Keys::Star,
    ensures
        ({
            let typed = line.process(capacity, key).0;
            let erased = typed.process(capacity, Keys { bits: Keys::Star | Keys::ShiftR }).0;
            &&& erased.text == line.text
            &&& erased.cursor == line.cursor
        }),
{
    let c = key.character()->0;
    lemma_insert_then_delete(line, c as u8);
    let mask = key.bits;
    assert(mask & Keys::Star != Keys::Star ==> mask != Keys::Star | Keys::ShiftR)
        by (bit_vector);
    assert((Keys::Star | Keys::ShiftR) & Keys::Star == Keys::Star) by (bit_vector);
    assert((Keys::Star | Keys::ShiftR) ^ Keys::Star == Keys::ShiftR) by (bit_vector);
}

/// A second poll with the same mask reports `Running` and leaves the line as
/// the first poll left it: a held key is never inserted twice.
pub proof fn lemma_repeated_poll(line: EditLine, capacity: int, key: Keys)
    ensures
        ({
            let (first, _) = line.process(capacity, key);
            first.process(capacity, key) == (first, InputState::Running(key))
        }),
        key == line.last ==> line.process(capacity, key) == (line, InputState::Running(key)),
{
}

/// A line whose text fills the room takes no further character: the poll that
/// would insert one reports `Overflow`, and text and cursor stay.
pub proof fn lemma_full_line_overflows(line: EditLine, capacity: int, key: Keys)
    requires
        line.wf(capacity),
        line.text.len() == EditLine::room(capacity),
        line.ready,
        key != line.last,
        key.bits & Keys::Star != Keys::Star,
        key.character() is Some,
    ensures
        line.process(capacity, key).1 == InputState::Overflow,
        line.process(capacity, key).0.text == line.text,
        line.process(capacity, key).0.cursor == line.cursor,
{
}

/// Every poll keeps a well-formed line well-formed.
pub proof fn lemma_process_wf(line: EditLine, capacity: int, key: Keys)
    requires
        line.wf(capacity),
        key.character() matches Some(c) ==> is_printable(c),
    ensures
        line.process(capacity, key).0.wf(capacity),
{
    let next = line.process(capacity, key).0;
    if key != line.last {
        if key.bits & Keys::Star == Keys::Star {
        } else if let Some(c) = key.character() {
            if line.ready && line.text.len() < EditLine::room(capacity) {
                assert(c as u8 != 0);
            }
        }
    }
}

} // verus!
