//! The selection state, and what each key does to it.
//!
//! The prompt is in one of two modes. While nothing has been typed, a glyph
//! marks a row of the listing and the arrow keys move it. As soon as the
//! buffer holds text, the typed numbers are what counts and the text cursor is
//! shown instead. [`Selection::apply`] is the whole transition table: it takes
//! one event, changes the state and returns the text that has to be written
//! to the terminal for it.

use crate::ansi::{
    clear_line, clear_line_text, cursor_goto, foreground, goto_text, hide_cursor, hide_text,
    reset, reset_text, show_cursor, show_text, tint_text, Tint,
};
use crate::strings::{pop_char, push_char};
use crate::tokens::{chars_of, is_digit, parse_selection, selection_values, spaceless};
use vstd::prelude::*;
use vstd::string::{StrSliceExecFns, StringExecFns};

verus! {

/// Rows kept free below the row on which the glyph starts.
pub const MARGIN: u16 = 4;

/// The smallest terminal height the prompt can be laid out on.
pub const MIN_HEIGHT: u16 = 5;

/// The largest terminal height for which every row the prompt addresses is
/// still a `u16`.
pub const MAX_HEIGHT: u16 = 65530;

/// The highest row the glyph is moved from: at or above it, `Up` is without
/// effect.
pub const TOP_ROW: u16 = 2;

/// A key press, as far as the prompt tells keys apart.
#[derive(Clone, Copy, Debug, PartialEq, Eq, Structural)]
pub enum Key {
    Backspace,
    Up,
    Down,
    Char(char),
    Other,
}

/// What a key press means to the prompt.
#[derive(Clone, Copy, Debug, PartialEq, Eq, Structural)]
pub enum Event {
    /// The letter `q`: give up.
    Quit,
    /// Move the glyph one entry up.
    Up,
    /// Move the glyph one entry down.
    Down,
    /// Take the last character off the buffer.
    Backspace,
    /// A digit key. The character is appended to the buffer if it is one of
    /// `0` to `9`; with any other character the event is without effect.
    Digit(char),
    /// The separator between two numbers.
    Space,
    /// The newline: take what is selected.
    Confirm,
    /// Any other key.
    Ignored,
}

/// How far the interaction has come.
#[derive(Clone, Copy, Debug, PartialEq, Eq, Structural)]
pub enum Phase {
    Reading,
    Confirmed,
    Cancelled,
}

/// The last character of `text`, or a space where `text` is empty.
pub open spec fn last_or_space(text: Seq<char>) -> char {
    if text.len() > 0 {
        text.last()
    } else {
        ' '
    }
}

/// Whether two spaces stand side by side in `text`.
pub open spec fn doubled_space(text: Seq<char>) -> bool {
    exists|i: int| 0 < i < text.len() && #[trigger] text[i] == ' ' && text[i - 1] == ' '
}

/// What a buffer can hold: digits, and single spaces behind them where
/// several numbers are asked for. No space stands in front, no two stand
/// side by side, and none stands anywhere where one number is asked for.
pub open spec fn typeable(text: Seq<char>, multi: bool) -> bool {
    &&& forall|i: int| 0 <= i < text.len() ==> is_digit(#[trigger] text[i]) || text[i] == ' '
    &&& text.len() > 0 ==> text[0] != ' '
    &&& !doubled_space(text)
    &&& !multi ==> spaceless(text)
}

/// The event that a key press stands for.
pub open spec fn event_of(key: Key) -> Event {
    match key {
        Key::Backspace => Event::Backspace,
        Key::Up => Event::Up,
        Key::Down => Event::Down,
        Key::Other => Event::Ignored,
        Key::Char(c) => if c == 'q' {
            Event::Quit
        } else if is_digit(c) {
            Event::Digit(c)
        } else if c == ' ' {
            Event::Space
        } else if c == '\n' {
            Event::Confirm
        } else {
            Event::Ignored
        },
    }
}

/// The mark in front of the banner lines and of the typed text.
pub open spec fn prompt_text() -> Seq<char> {
    "=> "@
}

/// The glyph that marks the selected row.
pub open spec fn glyph_text() -> Seq<char> {
    "\u{2192}"@
}

/// The number of bytes that `text` takes in UTF-8, as a `usize` holds it.
pub open spec fn byte_len(text: Seq<char>) -> usize {
    vstd::utf8::encode_utf8(text).len() as usize
}

/// The column of the text cursor behind the typed `text`: the width of the
/// prompt mark, the bytes of the text and one more, cut to 16 bits.
pub open spec fn edit_column(text: Seq<char>) -> int {
    (byte_len(text) + 4) % 0x10000
}

/// The selection state as a mathematical value.
pub ghost struct SelectionView {
    /// Whether several numbers may be typed, separated by spaces.
    pub multi: bool,
    /// The height of the terminal in rows.
    pub height: int,
    /// The row the glyph is on.
    pub row: int,
    /// The index the glyph points at: 1 on the starting row, one more for
    /// every entry further up.
    pub cursor_index: int,
    /// What has been typed.
    pub buffer: Seq<char>,
    /// The last character of the buffer, a space while the buffer is empty:
    /// what decides whether a separator may follow.
    pub last_char: char,
    /// Whether keys are still being read.
    pub phase: Phase,
}

impl SelectionView {
    /// The state in which every prompt starts: glyph on the lowest row of its
    /// band, index 1, nothing typed.
    pub open spec fn initial(multi: bool, height: int) -> SelectionView {
        SelectionView {
            multi,
            height,
            row: height - MARGIN,
            cursor_index: 1,
            buffer: Seq::<char>::empty(),
            last_char: ' ',
            phase: Phase::Reading,
        }
    }

    /// The lowest row the glyph can be on, on which it starts.
    pub open spec fn bottom(self) -> int {
        self.height - MARGIN
    }

    /// What holds of the glyph: the height can be laid out, the glyph is an
    /// even number of rows above its starting row and not above the first
    /// row, and the index counts the steps it has made.
    pub open spec fn laid_out(self) -> bool {
        &&& MIN_HEIGHT <= self.height <= MAX_HEIGHT
        &&& 1 <= self.row <= self.bottom()
        &&& (self.bottom() - self.row) % 2 == 0
        &&& self.cursor_index == 1 + (self.bottom() - self.row) / 2
    }

    /// What holds of the buffer: it holds what can be typed, and the last
    /// character is the one it ends in.
    pub open spec fn tidy(self) -> bool {
        &&& typeable(self.buffer, self.multi)
        &&& self.last_char == last_or_space(self.buffer)
    }

    /// What holds of every state a prompt can be in.
    pub open spec fn wf(self) -> bool {
        &&& self.laid_out()
        &&& self.tidy()
    }

    /// Whether the glyph is what selects: nothing is typed.
    pub open spec fn glyph_selects(self) -> bool {
        self.buffer.len() == 0
    }

    /// The state after `event`. Once the prompt is confirmed or cancelled no
    /// event changes it any more.
    pub open spec fn after(self, event: Event) -> SelectionView {
        if self.phase != Phase::Reading {
            self
        } else {
            match event {
                Event::Quit => SelectionView { phase: Phase::Cancelled, ..self },
                Event::Confirm => SelectionView { phase: Phase::Confirmed, ..self },
                Event::Up => if self.row > TOP_ROW {
                    SelectionView {
                        row: self.row - 2,
                        cursor_index: self.cursor_index + 1,
                        ..self
                    }
                } else {
                    self
                },
                Event::Down => if self.row < self.bottom() {
                    SelectionView {
                        row: self.row + 2,
                        cursor_index: self.cursor_index - 1,
                        ..self
                    }
                } else {
                    self
                },
                Event::Backspace => if self.buffer.len() > 0 {
                    SelectionView {
                        buffer: self.buffer.drop_last(),
                        last_char: last_or_space(self.buffer.drop_last()),
                        ..self
                    }
                } else {
                    self
                },
                Event::Digit(c) => if is_digit(c) {
                    SelectionView { buffer: self.buffer.push(c), last_char: c, ..self }
                } else {
                    self
                },
                Event::Space => if self.multi && self.buffer.len() > 0 && self.last_char != ' ' {
                    SelectionView { buffer: self.buffer.push(' '), last_char: ' ', ..self }
                } else {
                    self
                },
                Event::Ignored => self,
            }
        }
    }

    /// The text that blanks the glyph on its row.
    pub open spec fn blank_text(self) -> Seq<char> {
        goto_text(0, self.row as nat) + " "@
    }

    /// The text that shows where input goes: the glyph on its row with the
    /// text cursor hidden while nothing is typed, else the text cursor behind
    /// the typed text.
    pub open spec fn cursor_text(self) -> Seq<char> {
        if self.glyph_selects() {
            hide_text() + goto_text(0, self.row as nat) + glyph_text()
        } else {
            show_text() + goto_text(edit_column(self.buffer) as nat, (self.height + 3) as nat)
        }
    }

    /// The text that puts the prompt mark and the typed text on the input
    /// line.
    pub open spec fn input_line_text(self) -> Seq<char> {
        goto_text(0, self.height as nat) + prompt_text() + self.buffer
    }

    /// The same, with the input line cleared first.
    pub open spec fn cleared_line_text(self) -> Seq<char> {
        goto_text(0, self.height as nat) + clear_line_text() + prompt_text() + self.buffer
    }

    /// The text written when the prompt takes over the terminal: the prompt
    /// mark on the input line, then the glyph on its row.
    pub open spec fn opening_text(self) -> Seq<char> {
        self.input_line_text() + self.cursor_text()
    }

    /// The text written to the terminal while `event` is handled.
    pub open spec fn drawn(self, event: Event) -> Seq<char> {
        if self.phase != Phase::Reading {
            Seq::<char>::empty()
        } else {
            let next = self.after(event);
            match event {
                Event::Quit => goto_text(0, (self.height + MARGIN) as nat) + "\n"@,
                Event::Confirm => goto_text(0, (self.height + MARGIN + 1) as nat) + "\n"@,
                Event::Up => self.blank_text() + next.cursor_text(),
                Event::Down => self.blank_text() + next.cursor_text(),
                Event::Backspace => if self.buffer.len() > 0 {
                    next.cleared_line_text() + next.cursor_text()
                } else {
                    next.cursor_text()
                },
                Event::Digit(c) => if is_digit(c) {
                    self.blank_text() + next.input_line_text() + next.cursor_text()
                } else {
                    next.cursor_text()
                },
                Event::Space => next.cursor_text(),
                Event::Ignored => next.cursor_text(),
            }
        }
    }

    /// What the prompt hands back: nothing when it was cancelled, else the
    /// typed numbers if anything is typed, else the index under the glyph.
    pub open spec fn resolved(self) -> Seq<i32> {
        if self.phase == Phase::Cancelled {
            Seq::<i32>::empty()
        } else if self.buffer.len() > 0 {
            selection_values(self.buffer)
        } else {
            seq![self.cursor_index as i32]
        }
    }
}

/// The state after the keys of `keys`, pressed in order.
pub open spec fn run(start: SelectionView, keys: Seq<Key>) -> SelectionView
    decreases keys.len(),
{
    if keys.len() == 0 {
        start
    } else {
        run(start, keys.drop_last()).after(event_of(keys.last()))
    }
}

/// The text written while the keys of `keys` are handled in order.
pub open spec fn run_text(start: SelectionView, keys: Seq<Key>) -> Seq<char>
    decreases keys.len(),
{
    if keys.len() == 0 {
        Seq::<char>::empty()
    } else {
        run_text(start, keys.drop_last()) + run(start, keys.drop_last()).drawn(
            event_of(keys.last()),
        )
    }
}

/// The state in which a prompt ends that reads `keys`: where they leave it
/// still reading, the end of the keys confirms.
pub open spec fn finished(start: SelectionView, keys: Seq<Key>) -> SelectionView {
    run(start, keys).after(Event::Confirm)
}

/// All the text of a prompt that reads `keys`, from taking over the terminal
/// to letting it go.
pub open spec fn session_text(start: SelectionView, keys: Seq<Key>) -> Seq<char> {
    start.opening_text() + run_text(start, keys) + run(start, keys).drawn(Event::Confirm)
}

/// The text of the two banner lines above the prompt.
pub open spec fn banner_text(multi: bool) -> Seq<char> {
    let hint = if multi {
        "Select package with arrow keys, or enter items seperated by space (e.g. 1 2 3)"@
    } else {
        "Select package with arrow keys, or type item index"@
    };
    prompt_text() + tint_text(Tint::Red) + hint + reset_text() + "\n"@ + prompt_text() + tint_text(
        Tint::Red,
    ) + "[Q] to quit, [Enter] to confirm."@ + reset_text() + "\n"@
}

/// No event makes a tidy buffer untidy.
pub proof fn lemma_after_tidy(s: SelectionView, event: Event)
    requires
        s.tidy(),
    ensures
        s.after(event).tidy(),
{
    let t = s.after(event);
    assert forall|i: int| 0 <= i < t.buffer.len() implies is_digit(#[trigger] t.buffer[i])
        || t.buffer[i] == ' ' by {
        if i < s.buffer.len() {
            assert(t.buffer[i] == s.buffer[i]);
        }
    }
    if t.buffer.len() > 0 && s.buffer.len() > 0 {
        assert(t.buffer[0] == s.buffer[0]);
    }
    if doubled_space(t.buffer) {
        let i = choose|i: int|
            0 < i < t.buffer.len() && #[trigger] t.buffer[i] == ' ' && t.buffer[i - 1] == ' ';
        if i < s.buffer.len() {
            assert(s.buffer[i] == ' ' && s.buffer[i - 1] == ' ');
            assert(doubled_space(s.buffer));
        }
    }
    if !t.multi {
        assert forall|i: int| 0 <= i < t.buffer.len() implies #[trigger] t.buffer[i] != ' ' by {
            if i < s.buffer.len() {
                assert(t.buffer[i] == s.buffer[i]);
            }
        }
    }
}

/// No event takes a state out of the states a prompt can be in, and none
/// changes the height or the mode.
pub proof fn lemma_after_wf(s: SelectionView, event: Event)
    requires
        s.wf(),
    ensures
        s.after(event).wf(),
        s.after(event).height == s.height,
        s.after(event).multi == s.multi,
{
    lemma_after_tidy(s, event);
}

/// The state of one prompt.
pub struct Selection {
    multi: bool,
    height: u16,
    row: u16,
    cursor_index: i32,
    buffer: String,
    last_char: char,
    phase: Phase,
}

impl View for Selection {
    type V = SelectionView;

    closed spec fn view(&self) -> SelectionView {
        SelectionView {
            multi: self.multi,
            height: self.height as int,
            row: self.row as int,
            cursor_index: self.cursor_index as int,
            buffer: self.buffer@,
            last_char: self.last_char,
            phase: self.phase,
        }
    }
}

/// Appends to `out` the sequence that moves the cursor to column `x` of row
/// `y`.
fn push_goto(out: &mut String, x: u16, y: u16)
    requires
        y > 0,
    ensures
        final(out)@ == old(out)@ + goto_text(x as nat, y as nat),
{
    let s = cursor_goto(x, y);
    out.append(s.as_str());
}

/// The last character of `text`, or a space where `text` is empty.
fn last_of(text: &str) -> (c: char)
    ensures
        c == last_or_space(text@),
{
    let n = text.unicode_len();
    if n > 0 {
        text.get_char(n - 1)
    } else {
        ' '
    }
}

/// The event that a key press stands for.
pub fn classify(key: Key) -> (event: Event)
    ensures
        event == event_of(key),
{
    match key {
        Key::Backspace => Event::Backspace,
        Key::Up => Event::Up,
        Key::Down => Event::Down,
        Key::Other => Event::Ignored,
        Key::Char(c) => {
            if c == 'q' {
                Event::Quit
            } else if c >= '0' && c <= '9' {
                Event::Digit(c)
            } else if c == ' ' {
                Event::Space
            } else if c == '\n' {
                Event::Confirm
            } else {
                Event::Ignored
            }
        },
    }
}

/// The two banner lines that are printed above the prompt, each ending in a
/// newline.
pub fn banner(multi: bool) -> (text: String)
    ensures
        text@ == banner_text(multi),
{
    let red = foreground(Tint::Red);
    let plain = reset();
    let mut out = String::new();
    out.append("=> ");
    out.append(red.as_str());
    if multi {
        out.append("Select package with arrow keys, or enter items seperated by space (e.g. 1 2 3)");
    } else {
        out.append("Select package with arrow keys, or type item index");
    }
    out.append(plain.as_str());
    out.append("\n");
    out.append("=> ");
    out.append(red.as_str());
    out.append("[Q] to quit, [Enter] to confirm.");
    out.append(plain.as_str());
    out.append("\n");
    assert(out@ =~= banner_text(multi));
    out
}

impl Selection {
    /// What holds of every state: see [`SelectionView::wf`].
    pub open spec fn wf(&self) -> bool {
        self@.wf()
    }

    /// The state in which a prompt starts on a terminal of `height` rows, or
    /// `None` where the prompt cannot be laid out on that many rows.
    pub fn new(multi: bool, height: u16) -> (r: Option<Selection>)
        ensures
            r is Some <==> MIN_HEIGHT <= height <= MAX_HEIGHT,
            r matches Some(s) ==> s.wf() && s@ == SelectionView::initial(multi, height as int),
    {
        if height < MIN_HEIGHT || height > MAX_HEIGHT {
            None
        } else {
            Some(
                Selection {
                    multi,
                    height,
                    row: height - MARGIN,
                    cursor_index: 1,
                    buffer: String::new(),
                    last_char: ' ',
                    phase: Phase::Reading,
                },
            )
        }
    }

    /// Whether several numbers may be typed.
    pub fn multi(&self) -> (r: bool)
        ensures
            r == self@.multi,
    {
        self.multi
    }

    /// The height of the terminal in rows.
    pub fn height(&self) -> (r: u16)
        ensures
            r == self@.height,
    {
        self.height
    }

    /// The row the glyph is on.
    pub fn row(&self) -> (r: u16)
        ensures
            r == self@.row,
    {
        self.row
    }

    /// The index the glyph points at.
    pub fn cursor_index(&self) -> (r: i32)
        ensures
            r == self@.cursor_index,
    {
        self.cursor_index
    }

    /// What has been typed.
    pub fn buffer(&self) -> (r: &str)
        ensures
            r@ == self@.buffer,
    {
        self.buffer.as_str()
    }

    /// The last character of the buffer, a space while the buffer is empty.
    pub fn last_char(&self) -> (r: char)
        ensures
            r == self@.last_char,
    {
        self.last_char
    }

    /// How far the interaction has come.
    pub fn phase(&self) -> (r: Phase)
        ensures
            r == self@.phase,
    {
        self.phase
    }

    /// Whether keys are still being read.
    pub fn is_reading(&self) -> (r: bool)
        ensures
            r == (self@.phase == Phase::Reading),
    {
        match self.phase {
            Phase::Reading => true,
            _ => false,
        }
    }

    /// The column of the text cursor behind the typed text.
    fn column(&self) -> (col: u16)
        ensures
            col == edit_column(self@.buffer),
    {
        let n: usize = self.buffer.as_str().len();
        let low: u32 = (n % 0x10000) as u32;
        ((low + 4) % 0x10000) as u16
    }

    /// The text that shows where input goes.
    fn cursor_frame(&self) -> (text: String)
        requires
            self@.laid_out(),
        ensures
            text@ == self@.cursor_text(),
    {
        let mut out = String::new();
        if self.buffer.as_str().is_empty() {
            let h = hide_cursor();
            out.append(h.as_str());
            push_goto(&mut out, 0, self.row);
            out.append("\u{2192}");
        } else {
            let s = show_cursor();
            out.append(s.as_str());
            push_goto(&mut out, self.column(), self.height + 3);
        }
        assert(out@ =~= self@.cursor_text());
        out
    }

    /// The text that blanks the glyph on its row.
    fn blank_frame(&self) -> (text: String)
        requires
            self@.laid_out(),
        ensures
            text@ == self@.blank_text(),
    {
        let mut out = String::new();
        push_goto(&mut out, 0, self.row);
        out.append(" ");
        assert(out@ =~= self@.blank_text());
        out
    }

    /// The text that puts the prompt mark and the typed text on the input
    /// line, after clearing the line if `clear` is set.
    fn input_line_frame(&self, clear: bool) -> (text: String)
        requires
            self@.laid_out(),
        ensures
            text@ == if clear {
                self@.cleared_line_text()
            } else {
                self@.input_line_text()
            },
    {
        let mut out = String::new();
        push_goto(&mut out, 0, self.height);
        if clear {
            let c = clear_line();
            out.append(c.as_str());
        }
        out.append("=> ");
        out.append(self.buffer.as_str());
        assert(out@ =~= if clear {
            self@.cleared_line_text()
        } else {
            self@.input_line_text()
        });
        out
    }

    /// The text to write when the prompt takes over the terminal.
    pub fn opening(&self) -> (text: String)
        requires
            self.wf(),
        ensures
            text@ == self@.opening_text(),
    {
        let mut out = self.input_line_frame(false);
        let tail = self.cursor_frame();
        out.append(tail.as_str());
        out
    }

    /// Handles one event: changes the state as the event asks and returns the
    /// text to write to the terminal for it.
    pub fn apply(&mut self, event: Event) -> (text: String)
        requires
            old(self).wf(),
        ensures
            final(self).wf(),
            final(self)@ == old(self)@.after(event),
            text@ == old(self)@.drawn(event),
    {
        proof {
            lemma_after_wf(old(self)@, event);
        }
        let mut out = String::new();
        if !self.is_reading() {
            return out;
        }
        match event {
            Event::Quit => {
                push_goto(&mut out, 0, self.height + MARGIN);
                out.append("\n");
                self.phase = Phase::Cancelled;
                assert(out@ =~= old(self)@.drawn(event));
                return out;
            },
            Event::Confirm => {
                push_goto(&mut out, 0, self.height + MARGIN + 1);
                out.append("\n");
                self.phase = Phase::Confirmed;
                assert(out@ =~= old(self)@.drawn(event));
                return out;
            },
            Event::Up => {
                out = self.blank_frame();
                if self.row > TOP_ROW {
                    self.row = self.row - 2;
                    self.cursor_index = self.cursor_index + 1;
                }
            },
            Event::Down => {
                out = self.blank_frame();
                if self.row < self.height - MARGIN {
                    self.row = self.row + 2;
                    self.cursor_index = self.cursor_index - 1;
                }
            },
            Event::Backspace => {
                match pop_char(&mut self.buffer) {
                    Some(_) => {
                        self.last_char = last_of(self.buffer.as_str());
                        out = self.input_line_frame(true);
                    },
                    None => {},
                }
            },
            Event::Digit(c) => {
                if c >= '0' && c <= '9' {
                    out = self.blank_frame();
                    push_char(&mut self.buffer, c);
                    self.last_char = c;
                    let line = self.input_line_frame(false);
                    out.append(line.as_str());
                }
            },
            Event::Space => {
                if self.multi && !self.buffer.as_str().is_empty() && self.last_char != ' ' {
                    push_char(&mut self.buffer, ' ');
                    self.last_char = ' ';
                }
            },
            Event::Ignored => {},
        }
        let tail = self.cursor_frame();
        out.append(tail.as_str());
        assert(out@ =~= old(self)@.drawn(event));
        out
    }

    /// Handles one key press: [`Selection::apply`] on the event the key stands
    /// for.
    pub fn step(&mut self, key: Key) -> (text: String)
        requires
            old(self).wf(),
        ensures
            final(self).wf(),
            final(self)@ == old(self)@.after(event_of(key)),
            text@ == old(self)@.drawn(event_of(key)),
    {
        let event = classify(key);
        self.apply(event)
    }

    /// What the prompt hands back in this state.
    pub fn selected(&self) -> (r: Vec<i32>)
        ensures
            r@ == self@.resolved(),
    {
        match self.phase {
            Phase::Cancelled => Vec::new(),
            _ => {
                if self.buffer.as_str().is_empty() {
                    let mut r: Vec<i32> = Vec::new();
                    r.push(self.cursor_index);
                    assert(r@ =~= self@.resolved());
                    r
                } else {
                    let typed = chars_of(self.buffer.as_str());
                    parse_selection(&typed)
                }
            },
        }
    }
}

} // verus!
