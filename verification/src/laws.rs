//! What holds of the prompt whatever is typed.

use crate::ansi::{decimal, digit_char, reset_text, show_text};
use crate::input::{
    banner_text, doubled_space, event_of, finished, last_or_space, lemma_after_tidy,
    lemma_after_wf, run, session_text, typeable, Event, Key, Phase, SelectionView, MARGIN,
    MAX_HEIGHT, MIN_HEIGHT, TOP_ROW,
};
use crate::render::{label_of, listing_text, PackageInfo};
use crate::session::selection_screen;
use crate::tokens::{
    all_digits, digit_value, digits_value, is_digit, joined, parsed, selection_values,
    spaceless, split_spaces, token_value, INVALID,
};
use vstd::prelude::*;

verus! {

/// The entry at `position` of a listing of `count` entries bears the number
/// `count - position`. The numbers lie between 1 and `count`, two entries
/// never bear the same, and every number from 1 to `count` is borne by one.
pub proof fn lemma_labels(count: nat, i: nat, j: nat)
    requires
        i < count,
        j < count,
    ensures
        label_of(count, i) == count - i,
        1 <= label_of(count, i) <= count,
        i != j ==> label_of(count, i) != label_of(count, j),
        forall|number: int|
            1 <= number <= count ==> #[trigger] label_of(count, (count - number) as nat) == number,
{
}

/// However the prompt ends, the last thing written shows the text cursor and
/// resets the colours.
pub proof fn lemma_cursor_restored(pkgs: Seq<PackageInfo>, height: int, keys: Seq<Key>)
    ensures
        (show_text() + reset_text()).is_suffix_of(selection_screen(pkgs, height, keys)),
{
    let tail = show_text() + reset_text();
    let all = selection_screen(pkgs, height, keys);
    let head = listing_text(pkgs) + banner_text(true) + session_text(
        SelectionView::initial(true, height),
        keys,
    );
    assert(all =~= head + tail);
    assert(all.subrange(all.len() - tail.len(), all.len() as int) =~= tail);
}

/// No run of keys takes a state out of the states a prompt can be in, and
/// none changes the height or the mode.
pub proof fn lemma_run_wf(s: SelectionView, keys: Seq<Key>)
    requires
        s.wf(),
    ensures
        run(s, keys).wf(),
        run(s, keys).height == s.height,
        run(s, keys).multi == s.multi,
    decreases keys.len(),
{
    if keys.len() > 0 {
        lemma_run_wf(s, keys.drop_last());
        lemma_after_wf(run(s, keys.drop_last()), event_of(keys.last()));
    }
}

/// A key pressed after others is handled in the state they left.
pub proof fn lemma_run_push(s: SelectionView, keys: Seq<Key>, key: Key)
    ensures
        run(s, keys.push(key)) == run(s, keys).after(event_of(key)),
{
    assert(keys.push(key).drop_last() =~= keys);
}

/// `Up` with the glyph on the top row or above it moves nothing and counts
/// nothing; from any lower row it moves the glyph two rows up and counts one
/// more. `Down` with the glyph on its starting row moves nothing and counts
/// nothing; from any higher row it moves the glyph two rows down and counts
/// one less.
pub proof fn lemma_arrows_stop_at_bounds(s: SelectionView)
    requires
        s.wf(),
        s.phase == Phase::Reading,
    ensures
        s.row <= TOP_ROW ==> s.after(Event::Up) == s,
        s.row > TOP_ROW ==> s.after(Event::Up).row == s.row - 2 && s.after(Event::Up).cursor_index
            == s.cursor_index + 1,
        s.row == s.bottom() ==> s.after(Event::Down) == s,
        s.row < s.bottom() ==> s.after(Event::Down).row == s.row + 2 && s.after(
            Event::Down,
        ).cursor_index == s.cursor_index - 1,
        s.after(Event::Down).row <= s.bottom(),
{
}

/// On a terminal with an even number of rows the glyph never leaves the band
/// between the top row and its starting row, whatever keys are pressed.
///
/// On an odd number of rows the rows of the band are odd too, and the last
/// step up ends on row 1: with 7 rows the glyph starts on row 3 and one `Up`
/// takes it there.
pub proof fn lemma_glyph_stays_in_band(multi: bool, height: int, keys: Seq<Key>)
    requires
        MIN_HEIGHT <= height <= MAX_HEIGHT,
        height % 2 == 0,
    ensures
        TOP_ROW <= run(SelectionView::initial(multi, height), keys).row <= height - MARGIN,
{
    lemma_run_wf(SelectionView::initial(multi, height), keys);
}

/// On any terminal the glyph stays between row 1 and its starting row, and
/// the index is 1 plus the number of steps the glyph is above its starting
/// row.
pub proof fn lemma_index_follows_glyph(multi: bool, height: int, keys: Seq<Key>)
    requires
        MIN_HEIGHT <= height <= MAX_HEIGHT,
    ensures
        ({
            let s = run(SelectionView::initial(multi, height), keys);
            &&& 1 <= s.row <= height - MARGIN
            &&& s.cursor_index == 1 + (height - MARGIN - s.row) / 2
            &&& 1 <= s.cursor_index <= i32::MAX
        }),
{
    lemma_run_wf(SelectionView::initial(multi, height), keys);
}

/// `q` cancels a prompt that is still reading, whatever has been typed, and a
/// cancelled prompt hands back nothing.
pub proof fn lemma_quit_empties(s: SelectionView)
    requires
        s.phase == Phase::Reading,
    ensures
        event_of(Key::Char('q')) == Event::Quit,
        s.after(Event::Quit).phase == Phase::Cancelled,
        s.after(Event::Quit).resolved() == Seq::<i32>::empty(),
{
}

/// The same for a whole prompt: if the keys before a `q` neither confirm nor
/// cancel, the prompt that reads them and the `q` hands back nothing.
pub proof fn lemma_quit_any_time(start: SelectionView, keys: Seq<Key>)
    requires
        run(start, keys).phase == Phase::Reading,
    ensures
        finished(start, keys.push(Key::Char('q'))).resolved() == Seq::<i32>::empty(),
{
    lemma_run_push(start, keys, Key::Char('q'));
}

/// Whether every key of `keys` is the backspace.
pub open spec fn all_backspace(keys: Seq<Key>) -> bool {
    forall|i: int| 0 <= i < keys.len() ==> #[trigger] keys[i] == Key::Backspace
}

/// Backspaces take characters off the end of the buffer, one each while there
/// are any, and leave the glyph and its index alone.
pub proof fn lemma_backspaces(s: SelectionView, keys: Seq<Key>)
    requires
        s.phase == Phase::Reading,
        all_backspace(keys),
    ensures
        ({
            let t = run(s, keys);
            let kept = if keys.len() <= s.buffer.len() {
                s.buffer.len() - keys.len()
            } else {
                0
            };
            &&& t.buffer == s.buffer.take(kept)
            &&& t.row == s.row
            &&& t.cursor_index == s.cursor_index
            &&& t.phase == Phase::Reading
        }),
    decreases keys.len(),
{
    if keys.len() == 0 {
        assert(s.buffer.take(s.buffer.len() as int) =~= s.buffer);
    } else {
        let before = keys.drop_last();
        assert(all_backspace(before)) by {
            assert forall|i: int| 0 <= i < before.len() implies #[trigger] before[i]
                == Key::Backspace by {
                assert(before[i] == keys[i]);
            }
        }
        lemma_backspaces(s, before);
        assert(keys.last() == keys[keys.len() - 1]);
        let mid = run(s, before);
        let kept_before = if before.len() <= s.buffer.len() {
            s.buffer.len() - before.len()
        } else {
            0
        };
        if kept_before > 0 {
            assert(s.buffer.take(kept_before).drop_last() =~= s.buffer.take(kept_before - 1));
        }
    }
}

/// Backspace pressed until the buffer is empty, and then the newline, hands
/// back the index under the glyph and nothing else.
pub proof fn lemma_backspace_then_confirm(s: SelectionView, keys: Seq<Key>)
    requires
        s.phase == Phase::Reading,
        all_backspace(keys),
        keys.len() >= s.buffer.len(),
    ensures
        event_of(Key::Char('\n')) == Event::Confirm,
        run(s, keys).buffer.len() == 0,
        run(s, keys.push(Key::Char('\n'))).phase == Phase::Confirmed,
        run(s, keys.push(Key::Char('\n'))).resolved() == seq![s.cursor_index as i32],
{
    lemma_backspaces(s, keys);
    lemma_run_push(s, keys, Key::Char('\n'));
}

/// Every piece of the typed text gives one entry of the selection, at the
/// place of the piece: its number where it is a numeral, and the value for
/// an invalid piece where it is not. The other pieces are read all the same.
pub proof fn lemma_values_by_position(text: Seq<char>, i: int)
    requires
        0 <= i < split_spaces(text).len(),
    ensures
        selection_values(text).len() == split_spaces(text).len(),
        selection_values(text)[i] == token_value(split_spaces(text)[i]),
        parsed(split_spaces(text)[i]) is None ==> selection_values(text)[i] == INVALID,
        parsed(split_spaces(text)[i]) matches Some(v) ==> selection_values(text)[i] == v,
{
}

/// A piece with a character that is neither a digit nor a sign in front is
/// no numeral, and neither is the empty piece.
pub proof fn lemma_not_a_numeral(token: Seq<char>, k: int)
    requires
        0 <= k < token.len(),
        !is_digit(token[k]),
        k > 0 || (token[0] != '+' && token[0] != '-'),
    ensures
        parsed(token) is None,
        token_value(token) == INVALID,
        parsed(Seq::<char>::empty()) is None,
{
    let signed = token[0] == '+' || token[0] == '-';
    if signed {
        assert(token.drop_first()[k - 1] == token[k]);
        assert(!all_digits(token.drop_first()));
    } else {
        assert(!all_digits(token));
    }
}

/// Whatever keys are pressed, the buffer holds digits and spaces only, never
/// starts with a space, never holds two spaces side by side, and holds no
/// space at all where a single number is asked for; and the last character
/// is the one the buffer ends in. A space typed behind a space is dropped,
/// also where a backspace has laid that space bare.
pub proof fn lemma_buffer_stays_tidy(multi: bool, height: int, keys: Seq<Key>)
    ensures
        ({
            let s = run(SelectionView::initial(multi, height), keys);
            &&& typeable(s.buffer, multi)
            &&& !doubled_space(s.buffer)
            &&& s.last_char == last_or_space(s.buffer)
            &&& s.multi == multi
        }),
    decreases keys.len(),
{
    if keys.len() > 0 {
        lemma_buffer_stays_tidy(multi, height, keys.drop_last());
        lemma_after_tidy(
            run(SelectionView::initial(multi, height), keys.drop_last()),
            event_of(keys.last()),
        );
    }
}

/// A text without a space is one piece.
pub proof fn lemma_spaceless_is_one_piece(text: Seq<char>)
    requires
        spaceless(text),
    ensures
        split_spaces(text) == seq![text],
    decreases text.len(),
{
    if text.len() == 0 {
        assert(text =~= Seq::<char>::empty());
    } else {
        let rest = text.drop_last();
        assert(spaceless(rest)) by {
            assert forall|i: int| 0 <= i < rest.len() implies #[trigger] rest[i] != ' ' by {
                assert(rest[i] == text[i]);
            }
        }
        lemma_spaceless_is_one_piece(rest);
        assert(text.last() == text[text.len() - 1]);
        assert(text.last() != ' ');
        assert(rest.push(text.last()) =~= text);
        assert(split_spaces(text) =~= seq![text]);
    }
}

/// A piece without a space, put behind a text and a space, is cut off again
/// as the last piece.
pub proof fn lemma_split_behind_space(text: Seq<char>, piece: Seq<char>)
    requires
        spaceless(piece),
    ensures
        split_spaces(text + seq![' '] + piece) == split_spaces(text).push(piece),
    decreases piece.len(),
{
    let whole = text + seq![' '] + piece;
    if piece.len() == 0 {
        assert(whole.drop_last() =~= text);
        assert(piece =~= Seq::<char>::empty());
    } else {
        let shorter = piece.drop_last();
        assert(spaceless(shorter)) by {
            assert forall|i: int| 0 <= i < shorter.len() implies #[trigger] shorter[i] != ' ' by {
                assert(shorter[i] == piece[i]);
            }
        }
        lemma_split_behind_space(text, shorter);
        assert(whole.drop_last() =~= text + seq![' '] + shorter);
        assert(whole.last() == piece[piece.len() - 1]);
        assert(shorter.push(piece.last()) =~= piece);
        assert(split_spaces(whole) =~= split_spaces(text).push(piece));
    }
}

/// Pieces without spaces, joined by single spaces, are cut into the same
/// pieces again.
pub proof fn lemma_join_splits(tokens: Seq<Seq<char>>)
    requires
        tokens.len() >= 1,
        forall|i: int| 0 <= i < tokens.len() ==> spaceless(#[trigger] tokens[i]),
    ensures
        split_spaces(joined(tokens)) == tokens,
    decreases tokens.len(),
{
    if tokens.len() == 1 {
        lemma_spaceless_is_one_piece(tokens[0]);
        assert(seq![tokens[0]] =~= tokens);
    } else {
        let front = tokens.drop_last();
        assert forall|i: int| 0 <= i < front.len() implies spaceless(#[trigger] front[i]) by {
            assert(front[i] == tokens[i]);
        }
        lemma_join_splits(front);
        assert(tokens.last() == tokens[tokens.len() - 1]);
        lemma_split_behind_space(joined(front), tokens.last());
        assert(front.push(tokens.last()) =~= tokens);
    }
}

/// The numeral that the listing shows for a number is read back as that
/// number: it holds digits only, stands for the number, and as a typed text
/// it selects the number and nothing else.
pub proof fn lemma_decimal_reads_back(n: nat)
    requires
        n <= i32::MAX,
    ensures
        decimal(n).len() >= 1,
        all_digits(decimal(n)),
        digits_value(decimal(n)) == n,
        parsed(decimal(n)) == Some(n as int),
        selection_values(decimal(n)) == seq![n as i32],
{
    lemma_decimal_digits(n);
    let text = decimal(n);
    assert(is_digit(text[0]));
    assert(spaceless(text)) by {
        assert forall|i: int| 0 <= i < text.len() implies #[trigger] text[i] != ' ' by {
            assert(is_digit(text[i]));
        }
    }
    lemma_spaceless_is_one_piece(text);
    assert(selection_values(text) =~= seq![n as i32]);
}

/// The numeral of any number holds digits only and stands for the number.
pub proof fn lemma_decimal_digits(n: nat)
    ensures
        decimal(n).len() >= 1,
        all_digits(decimal(n)),
        digits_value(decimal(n)) == n,
    decreases n,
{
    if n < 10 {
        let text = decimal(n);
        assert(text.len() == 1);
        assert(is_digit(digit_char(n)));
        assert(digit_value(digit_char(n)) == n);
        assert(text.drop_last() =~= Seq::<char>::empty());
        assert(digits_value(text.drop_last()) == 0);
    } else {
        lemma_decimal_digits(n / 10);
        let front = decimal(n / 10);
        let last = digit_char(n % 10);
        let text = decimal(n);
        assert(text == front.push(last));
        assert(text.drop_last() =~= front);
        assert(is_digit(last));
        assert(digit_value(last) == n % 10);
        assert forall|i: int| 0 <= i < text.len() implies is_digit(#[trigger] text[i]) by {
            if i < front.len() {
                assert(text[i] == front[i]);
            }
        }
    }
}

/// Whether `keys` are the key presses that type `text`, character by
/// character.
pub open spec fn types(keys: Seq<Key>, text: Seq<char>) -> bool {
    &&& keys.len() == text.len()
    &&& forall|i: int| 0 <= i < keys.len() ==> #[trigger] keys[i] == Key::Char(text[i])
}

/// Typing a text that a buffer can hold puts it into the buffer as it is and
/// leaves the glyph where it started.
pub proof fn lemma_typed_text_is_buffered(
    multi: bool,
    height: int,
    text: Seq<char>,
    keys: Seq<Key>,
)
    requires
        typeable(text, multi),
        types(keys, text),
    ensures
        ({
            let start = SelectionView::initial(multi, height);
            let s = run(start, keys);
            &&& s.buffer == text
            &&& s.multi == multi
            &&& s.height == height
            &&& s.row == start.row
            &&& s.cursor_index == 1
            &&& s.phase == Phase::Reading
            &&& text.len() > 0 ==> s.last_char == text.last()
        }),
    decreases text.len(),
{
    let start = SelectionView::initial(multi, height);
    if text.len() == 0 {
        assert(run(start, keys).buffer =~= text);
    } else {
        let rest = text.drop_last();
        let c = text.last();
        assert(c == text[text.len() - 1]);
        assert(typeable(rest, multi)) by {
            assert forall|i: int| 0 <= i < rest.len() implies is_digit(#[trigger] rest[i])
                || rest[i] == ' ' by {
                assert(rest[i] == text[i]);
            }
            if rest.len() > 0 {
                assert(rest[0] == text[0]);
            }
            if doubled_space(rest) {
                let i = choose|i: int|
                    0 < i < rest.len() && #[trigger] rest[i] == ' ' && rest[i - 1] == ' ';
                assert(text[i] == ' ' && text[i - 1] == ' ');
            }
            if !multi {
                assert forall|i: int| 0 <= i < rest.len() implies #[trigger] rest[i] != ' ' by {
                    assert(rest[i] == text[i]);
                }
            }
        }
        assert(types(keys.drop_last(), rest)) by {
            assert forall|i: int| 0 <= i < keys.drop_last().len() implies #[trigger] keys.drop_last()[i]
                == Key::Char(rest[i]) by {
                assert(keys.drop_last()[i] == keys[i]);
                assert(rest[i] == text[i]);
            }
        }
        lemma_typed_text_is_buffered(multi, height, rest, keys.drop_last());
        assert(keys.last() == keys[keys.len() - 1]);
        assert(keys.last() == Key::Char(c));
        let mid = run(start, keys.drop_last());
        if c == ' ' {
            assert(rest.len() > 0);
            assert(rest.last() == text[text.len() - 2]);
            assert(text[text.len() - 2] != ' ') by {
                if text[text.len() - 2] == ' ' {
                    assert(text[text.len() - 1] == ' ');
                    assert(doubled_space(text));
                }
            }
            assert(multi);
        } else {
            assert(is_digit(c));
        }
        assert(mid.after(event_of(Key::Char(c))).buffer == rest.push(c));
        assert(rest.push(c) =~= text);
    }
}

/// Typing a text that a buffer can hold and then the newline selects the
/// numbers of the text;
/// with nothing typed, the newline selects the first index.
pub proof fn lemma_typed_text_is_selected(
    multi: bool,
    height: int,
    text: Seq<char>,
    keys: Seq<Key>,
)
    requires
        typeable(text, multi),
        types(keys, text),
    ensures
        finished(SelectionView::initial(multi, height), keys.push(Key::Char('\n'))).resolved()
            == if text.len() > 0 {
            selection_values(text)
        } else {
            seq![1i32]
        },
{
    let start = SelectionView::initial(multi, height);
    lemma_typed_text_is_buffered(multi, height, text, keys);
    lemma_run_push(start, keys, Key::Char('\n'));
}

/// A space behind a space is dropped: the second of two spaces in a row never
/// changes anything.
pub proof fn lemma_second_space_is_dropped(s: SelectionView)
    ensures
        s.after(Event::Space).after(Event::Space) == s.after(Event::Space),
        event_of(Key::Char(' ')) == Event::Space,
{
}

} // verus!
