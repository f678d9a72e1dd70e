//! A whole prompt, from the first line printed to the selection handed back.
//!
//! The functions here take the key presses as a list and return everything
//! that the prompt writes and decides for them. A caller that sits at a real
//! terminal drives [`Selection`] key by key instead and writes each piece of
//! text as it comes; the outcome is the same.

use crate::ansi::{reset, reset_text, show_cursor, show_text};
use crate::input::{
    banner, banner_text, finished, run, run_text, session_text, Event, Key, Phase,
    Selection, SelectionView, MAX_HEIGHT, MIN_HEIGHT,
};
use crate::render::{error_line, error_text, listing_text, PackageInfo, PackageInfoList};
use vstd::prelude::*;
use vstd::string::StringExecFns;

verus! {

/// What a prompt wrote and what it came to.
#[derive(Clone, Debug)]
pub struct Transcript {
    /// The text written to the terminal, in order.
    pub screen: String,
    /// The text written to the error stream.
    pub errors: String,
    /// The selected numbers; empty when the prompt was cancelled.
    pub selection: Vec<i32>,
}

/// What is written to the error stream for a list that came with
/// `load_error`.
pub open spec fn errors_text(load_error: Option<Seq<char>>) -> Seq<char> {
    match load_error {
        Some(message) => error_text(message),
        None => Seq::<char>::empty(),
    }
}

/// Everything a selection writes to the terminal: the listing, the banner,
/// the prompt for several numbers, and last the two sequences that show the
/// text cursor and reset the colours.
pub open spec fn selection_screen(pkgs: Seq<PackageInfo>, height: int, keys: Seq<Key>) -> Seq<
    char,
> {
    listing_text(pkgs) + banner_text(true) + session_text(
        SelectionView::initial(true, height),
        keys,
    ) + show_text() + reset_text()
}

/// Once a prompt is confirmed or cancelled, further keys neither change its
/// state nor write anything: what holds after the first `i` keys holds after
/// the first `j`.
pub proof fn lemma_settled(start: SelectionView, keys: Seq<Key>, i: int, j: int)
    requires
        0 <= i <= j <= keys.len(),
        run(start, keys.take(i)).phase != Phase::Reading,
    ensures
        run(start, keys.take(j)) == run(start, keys.take(i)),
        run_text(start, keys.take(j)) == run_text(start, keys.take(i)),
    decreases j - i,
{
    if j > i {
        lemma_settled(start, keys, i, j - 1);
        assert(keys.take(j).drop_last() =~= keys.take(j - 1));
        assert(run_text(start, keys.take(j)) =~= run_text(start, keys.take(i)));
    }
}

/// Runs a prompt on a terminal of `height` rows over the key presses `keys`.
///
/// The keys are handled in order up to the first that confirms or cancels;
/// where none does, the end of the keys confirms. The result is `None` where
/// the prompt cannot be laid out on `height` rows.
pub fn handle_input(multi: bool, height: u16, keys: &Vec<Key>) -> (r: Option<Transcript>)
    ensures
        r is Some <==> MIN_HEIGHT <= height <= MAX_HEIGHT,
        r matches Some(t) ==> {
            let start = SelectionView::initial(multi, height as int);
            &&& t.screen@ == banner_text(multi) + session_text(start, keys@)
            &&& t.errors@ == Seq::<char>::empty()
            &&& t.selection@ == finished(start, keys@).resolved()
        },
{
    let mut state = match Selection::new(multi, height) {
        Some(s) => s,
        None => {
            return None;
        },
    };
    let ghost start = state@;
    let mut screen = banner(multi);
    let opening = state.opening();
    screen.append(opening.as_str());
    let n = keys.len();
    let mut i: usize = 0;
    assert(keys@.take(0) =~= Seq::<Key>::empty());
    while i < n && state.is_reading()
        invariant
            i <= n,
            n == keys@.len(),
            state.wf(),
            state@ == run(start, keys@.take(i as int)),
            screen@ == banner_text(multi) + start.opening_text() + run_text(
                start,
                keys@.take(i as int),
            ),
        decreases n - i,
    {
        let text = state.step(keys[i]);
        screen.append(text.as_str());
        proof {
            let longer = keys@.take(i + 1);
            assert(longer.drop_last() =~= keys@.take(i as int));
            assert(longer.last() == keys@[i as int]);
            assert(screen@ =~= banner_text(multi) + start.opening_text() + run_text(start, longer));
        }
        i += 1;
    }
    proof {
        assert(keys@.take(n as int) =~= keys@);
        if i < n {
            lemma_settled(start, keys@, i as int, n as int);
        }
    }
    let closing = state.apply(Event::Confirm);
    screen.append(closing.as_str());
    let selection = state.selected();
    assert(screen@ =~= banner_text(multi) + session_text(start, keys@));
    Some(Transcript { screen, errors: String::new(), selection })
}

/// Shows `packages` and lets the user pick among them, over the key presses
/// `keys`.
///
/// The listing comes first, then the prompt for several numbers, and last the
/// sequences that show the text cursor again and reset the colours, whichever
/// way the prompt ended. A `load_error` is reported on the error stream and
/// does not keep the prompt from running.
pub fn package_selection(
    packages: &PackageInfoList,
    load_error: Option<&str>,
    height: u16,
    keys: &Vec<Key>,
) -> (r: Option<Transcript>)
    ensures
        r is Some <==> MIN_HEIGHT <= height <= MAX_HEIGHT,
        r matches Some(t) ==> {
            let start = SelectionView::initial(true, height as int);
            &&& t.screen@ == selection_screen(packages.pkgs@, height as int, keys@)
            &&& t.errors@ == errors_text(
                match load_error {
                    Some(message) => Some(message@),
                    None => None,
                },
            )
            &&& t.selection@ == finished(start, keys@).resolved()
        },
{
    let prompt = match handle_input(true, height, keys) {
        Some(t) => t,
        None => {
            return None;
        },
    };
    let mut screen = packages.listing();
    screen.append(prompt.screen.as_str());
    let visible = show_cursor();
    screen.append(visible.as_str());
    let plain = reset();
    screen.append(plain.as_str());
    let errors = match load_error {
        Some(message) => error_line(message),
        None => String::new(),
    };
    assert(screen@ =~= selection_screen(packages.pkgs@, height as int, keys@));
    Some(Transcript { screen, errors, selection: prompt.selection })
}

} // verus!
