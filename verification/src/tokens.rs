//! Turning the typed text into numbers.
//!
//! The text is cut at every space, and each piece is read as a decimal `i32`.
//! A piece that is no such numeral is not an error: it stands in the result
//! as [`INVALID`], which no list position ever has, and it is for the caller
//! to turn such an entry down.

use vstd::prelude::*;
use vstd::std_specs::iter::IteratorSpec;

verus! {

/// The value that stands for a piece of text that is no numeral.
pub const INVALID: i32 = -1;

/// Whether `c` is one of `0` to `9`.
pub open spec fn is_digit(c: char) -> bool {
    '0' <= c && c <= '9'
}

/// The number a digit stands for.
pub open spec fn digit_value(c: char) -> int {
    c as int - '0' as int
}

/// Whether `s` holds digits only.
pub open spec fn all_digits(s: Seq<char>) -> bool {
    forall|i: int| 0 <= i < s.len() ==> is_digit(#[trigger] s[i])
}

/// The number a run of digits stands for, the empty run for 0.
pub open spec fn digits_value(s: Seq<char>) -> int
    decreases s.len(),
{
    if s.len() == 0 {
        0
    } else {
        digits_value(s.drop_last()) * 10 + digit_value(s.last())
    }
}

/// The number `token` stands for: an optional `+` or `-`, then one or more
/// digits, the whole within the range of `i32`. Anything else is no number.
pub open spec fn parsed(token: Seq<char>) -> Option<int> {
    if token.len() == 0 {
        None
    } else {
        let signed = token[0] == '+' || token[0] == '-';
        let digits = if signed {
            token.drop_first()
        } else {
            token
        };
        let magnitude = digits_value(digits);
        let value = if token[0] == '-' {
            -magnitude
        } else {
            magnitude
        };
        if digits.len() > 0 && all_digits(digits) && i32::MIN <= value <= i32::MAX {
            Some(value)
        } else {
            None
        }
    }
}

/// What `token` contributes to a selection: its number, or [`INVALID`].
pub open spec fn token_value(token: Seq<char>) -> i32 {
    match parsed(token) {
        Some(v) => v as i32,
        None => INVALID,
    }
}

/// Whether `text` holds no space.
pub open spec fn spaceless(text: Seq<char>) -> bool {
    forall|i: int| 0 <= i < text.len() ==> #[trigger] text[i] != ' '
}

/// The pieces of `s` between its spaces, in order. A text without a space is
/// one piece; two spaces in a row, or a space at either end, give an empty
/// piece.
pub open spec fn split_spaces(s: Seq<char>) -> Seq<Seq<char>>
    decreases s.len(),
{
    if s.len() == 0 {
        seq![Seq::<char>::empty()]
    } else {
        let before = split_spaces(s.drop_last());
        if s.last() == ' ' {
            before.push(Seq::<char>::empty())
        } else {
            before.update(before.len() - 1, before.last().push(s.last()))
        }
    }
}

/// The numbers that the text `s` selects: one for each piece of `s`.
pub open spec fn selection_values(s: Seq<char>) -> Seq<i32> {
    split_spaces(s).map_values(|token: Seq<char>| token_value(token))
}

/// A text always has at least one piece.
pub proof fn lemma_split_nonempty(s: Seq<char>)
    ensures
        split_spaces(s).len() >= 1,
    decreases s.len(),
{
    if s.len() > 0 {
        lemma_split_nonempty(s.drop_last());
    }
}

/// The pieces of `tokens` put together again, one space between each two.
pub open spec fn joined(tokens: Seq<Seq<char>>) -> Seq<char>
    decreases tokens.len(),
{
    if tokens.len() == 0 {
        Seq::<char>::empty()
    } else if tokens.len() == 1 {
        tokens[0]
    } else {
        joined(tokens.drop_last()) + seq![' '] + tokens.last()
    }
}

/// Cutting a text at its spaces loses nothing but the spaces: no piece holds
/// a space, and the pieces joined by single spaces are the text again.
pub proof fn lemma_split_joins(s: Seq<char>)
    ensures
        joined(split_spaces(s)) == s,
        forall|i: int, k: int|
            0 <= i < split_spaces(s).len() && 0 <= k < split_spaces(s)[i].len()
                ==> #[trigger] split_spaces(s)[i][k] != ' ',
    decreases s.len(),
{
    if s.len() > 0 {
        let rest = s.drop_last();
        let before = split_spaces(rest);
        let pieces = split_spaces(s);
        lemma_split_joins(rest);
        lemma_split_nonempty(rest);
        if s.last() == ' ' {
            assert(pieces.drop_last() =~= before);
            assert(joined(pieces) =~= rest.push(' '));
            assert(rest.push(' ') =~= s);
            assert forall|i: int, k: int|
                0 <= i < pieces.len() && 0 <= k < pieces[i].len() implies #[trigger] pieces[i][k]
                != ' ' by {
                assert(pieces[i] == before[i]);
            }
        } else {
            let grown = before.last().push(s.last());
            assert(pieces.last() == grown);
            if before.len() == 1 {
                assert(joined(before) == before[0]);
                assert(joined(pieces) =~= rest.push(s.last()));
            } else {
                assert(pieces.drop_last() =~= before.drop_last());
                assert(joined(pieces) =~= (joined(before.drop_last()) + seq![' ']
                    + before.last()).push(s.last()));
            }
            assert(rest.push(s.last()) =~= s);
            assert forall|i: int, k: int|
                0 <= i < pieces.len() && 0 <= k < pieces[i].len() implies #[trigger] pieces[i][k]
                != ' ' by {
                if i < pieces.len() - 1 {
                    assert(pieces[i] == before[i]);
                } else if k < before.last().len() {
                    assert(pieces[i][k] == before[i][k]);
                }
            }
        }
    } else {
        assert(joined(split_spaces(s)) =~= s);
    }
}

/// Digits appended to a run never make its value smaller.
proof fn lemma_digits_value_grows(s: Seq<char>, k: int)
    requires
        0 <= k <= s.len(),
        all_digits(s),
    ensures
        0 <= digits_value(s.take(k)) <= digits_value(s),
    decreases s.len() - k,
{
    if k == s.len() {
        assert(s.take(k) =~= s);
        lemma_digits_value_nonnegative(s);
    } else {
        lemma_digits_value_grows(s, k + 1);
        let longer = s.take(k + 1);
        assert(longer.drop_last() =~= s.take(k));
        assert(is_digit(s[k]));
        assert(longer.last() == s[k]);
        lemma_digits_value_nonnegative(s.take(k));
    }
}

proof fn lemma_digits_value_nonnegative(s: Seq<char>)
    requires
        all_digits(s),
    ensures
        0 <= digits_value(s),
    decreases s.len(),
{
    if s.len() > 0 {
        lemma_digits_value_nonnegative(s.drop_last());
        assert(is_digit(s.last()));
    }
}

/// The characters of `s`, one by one.
pub fn chars_of(s: &str) -> (v: Vec<char>)
    ensures
        v@ == s@,
{
    broadcast use vstd::string::group_string_axioms;

    let mut it = s.chars();
    let mut v: Vec<char> = Vec::new();
    loop
        invariant
            it.obeys_prophetic_iter_laws(),
            it.decrease() is Some,
            v@ + it.remaining() == s@,
        ensures
            v@ == s@,
        decreases it.decrease()->0,
    {
        let next = it.next();
        match next {
            Some(c) => {
                proof {
                    assert(v@.push(c) + it.remaining() =~= s@);
                }
                v.push(c);
            },
            None => {
                assert(v@ =~= s@);
                break ;
            },
        }
    }
    v
}

fn digit_of(c: char) -> (d: i64)
    requires
        is_digit(c),
    ensures
        d == digit_value(c),
        0 <= d <= 9,
{
    (c as u32 - '0' as u32) as i64
}

/// Reads `token` as a decimal `i32`.
pub fn parse_token(token: &Vec<char>) -> (r: Option<i32>)
    ensures
        match r {
            Some(v) => parsed(token@) == Some(v as int),
            None => parsed(token@) is None,
        },
{
    let n = token.len();
    if n == 0 {
        return None;
    }
    let first = token[0];
    let negative = first == '-';
    let start: usize = if first == '+' || first == '-' {
        1
    } else {
        0
    };
    if start == n {
        return None;
    }
    let ghost digits = token@.subrange(start as int, n as int);
    assert(digits =~= if start == 1 {
        token@.drop_first()
    } else {
        token@
    });
    let mut acc: i64 = 0;
    let mut i: usize = start;
    while i < n
        invariant
            start <= i <= n,
            n == token.len(),
            n > 0,
            digits == token@.subrange(start as int, n as int),
            (start == 1) == (token@[0] == '+' || token@[0] == '-'),
            digits == (if start == 1 {
                token@.drop_first()
            } else {
                token@
            }),
            all_digits(digits.take(i - start)),
            acc == digits_value(digits.take(i - start)),
            0 <= acc <= 2147483648,
        decreases n - i,
    {
        let c = token[i];
        if !(c >= '0' && c <= '9') {
            assert(digits[i - start] == c);
            assert(!all_digits(digits));
            return None;
        }
        let d = digit_of(c);
        proof {
            let longer = digits.take(i + 1 - start);
            assert(longer.drop_last() =~= digits.take(i - start));
            assert(longer.last() == c);
            assert forall|j: int| 0 <= j < longer.len() implies is_digit(#[trigger] longer[j]) by {
                if j < i - start {
                    assert(digits.take(i - start)[j] == longer[j]);
                }
            }
        }
        acc = acc * 10 + d;
        if acc > 2147483648 {
            proof {
                if all_digits(digits) {
                    lemma_digits_value_grows(digits, i + 1 - start);
                }
            }
            return None;
        }
        i += 1;
    }
    assert(digits.take(n - start) =~= digits);
    if negative {
        Some((-acc) as i32)
    } else if acc <= 2147483647 {
        Some(acc as i32)
    } else {
        None
    }
}

/// The numbers that `text` selects: it is cut at every space, and each piece
/// gives its number, or [`INVALID`] where it is no numeral.
pub fn parse_selection(text: &Vec<char>) -> (r: Vec<i32>)
    ensures
        r@ == selection_values(text@),
{
    let n = text.len();
    let mut out: Vec<i32> = Vec::new();
    let mut current: Vec<char> = Vec::new();
    let ghost mut done: Seq<Seq<char>> = Seq::empty();
    let mut i: usize = 0;
    while i < n
        invariant
            i <= n,
            n == text.len(),
            split_spaces(text@.take(i as int)) == done.push(current@),
            out@ == done.map_values(|token: Seq<char>| token_value(token)),
        decreases n - i,
    {
        let c = text[i];
        proof {
            let longer = text@.take(i + 1);
            assert(longer.drop_last() =~= text@.take(i as int));
            assert(longer.last() == c);
        }
        if c == ' ' {
            let value = value_of(&current);
            proof {
                assert(done.push(current@).map_values(|token: Seq<char>| token_value(token))
                    =~= out@.push(value));
                done = done.push(current@);
            }
            out.push(value);
            current = Vec::new();
        } else {
            proof {
                assert(done.push(current@).update(done.len() as int, current@.push(c))
                    =~= done.push(current@.push(c)));
            }
            current.push(c);
        }
        i += 1;
    }
    let value = value_of(&current);
    proof {
        assert(text@.take(n as int) =~= text@);
        assert(done.push(current@).map_values(|token: Seq<char>| token_value(token)) =~= out@.push(
            value,
        ));
    }
    out.push(value);
    out
}

/// What `token` contributes to a selection: its number, or [`INVALID`].
pub fn value_of(token: &Vec<char>) -> (v: i32)
    ensures
        v == token_value(token@),
{
    match parse_token(token) {
        Some(v) => v,
        None => INVALID,
    }
}

} // verus!
