use pkg_prompt::ansi::push_decimal;
use pkg_prompt::input::{
    banner, classify, Event, Key, Phase, Selection, MARGIN, MAX_HEIGHT, MIN_HEIGHT, TOP_ROW,
};
use pkg_prompt::render::{PackageInfo, PackageInfoList};
use pkg_prompt::session::{handle_input, package_selection};
use termion::{clear, cursor};

fn typed(text: &str) -> Vec<Key> {
    text.chars().map(Key::Char).collect()
}

fn selection(multi: bool, height: u16, keys: &Vec<Key>) -> Vec<i32> {
    handle_input(multi, height, keys).unwrap().selection
}

fn fresh(multi: bool, height: u16) -> Selection {
    Selection::new(multi, height).unwrap()
}

#[test]
fn two_digits_and_newline_give_one_number() {
    assert_eq!(selection(false, 24, &typed("12\n")), vec![12]);
}

#[test]
fn numbers_separated_by_a_space() {
    assert_eq!(selection(true, 24, &typed("1 2\n")), vec![1, 2]);
}

#[test]
fn a_second_space_is_dropped() {
    assert_eq!(selection(true, 24, &typed("1  2\n")), vec![1, 2]);
    assert_eq!(selection(true, 24, &typed("1  2\n")), selection(true, 24, &typed("1 2\n")));
    assert_eq!(selection(true, 24, &typed("1     2\n")), vec![1, 2]);
}

#[test]
fn a_leading_space_is_dropped() {
    assert_eq!(selection(true, 24, &typed(" 7\n")), vec![7]);
}

#[test]
fn without_multi_a_space_is_dropped() {
    assert_eq!(selection(false, 24, &typed("1 2\n")), vec![12]);
}

#[test]
fn backspace_to_empty_falls_back_to_the_glyph() {
    let mut keys = typed("12");
    keys.push(Key::Backspace);
    keys.push(Key::Backspace);
    keys.push(Key::Char('\n'));
    assert_eq!(selection(true, 24, &keys), vec![1]);

    let mut keys = vec![Key::Up, Key::Up];
    keys.extend(typed("345"));
    keys.extend(vec![Key::Backspace; 5]);
    keys.push(Key::Char('\n'));
    assert_eq!(selection(true, 24, &keys), vec![3]);
}

#[test]
fn backspace_takes_one_character() {
    let mut keys = typed("123");
    keys.push(Key::Backspace);
    keys.push(Key::Char('\n'));
    assert_eq!(selection(false, 24, &keys), vec![12]);
}

#[test]
fn newline_alone_gives_index_one() {
    assert_eq!(selection(true, 24, &typed("\n")), vec![1]);
    assert_eq!(selection(false, 24, &typed("\n")), vec![1]);
}

#[test]
fn quit_gives_nothing_at_any_point() {
    assert_eq!(selection(true, 24, &typed("q")), Vec::<i32>::new());
    assert_eq!(selection(true, 24, &typed("12q")), Vec::<i32>::new());
    assert_eq!(selection(true, 24, &typed("1 2 q")), Vec::<i32>::new());
    assert_eq!(selection(false, 24, &vec![Key::Up, Key::Up, Key::Char('q')]), Vec::<i32>::new());
    assert_eq!(
        selection(true, 24, &vec![Key::Char('5'), Key::Backspace, Key::Char('q')]),
        Vec::<i32>::new()
    );
    assert_eq!(selection(true, 24, &typed("q\n")), Vec::<i32>::new());
}

#[test]
fn keys_behind_the_newline_are_not_read() {
    assert_eq!(selection(true, 24, &typed("1\n2q")), vec![1]);
    let a = handle_input(true, 24, &typed("1\n2q")).unwrap();
    let b = handle_input(true, 24, &typed("1\n")).unwrap();
    assert_eq!(a.screen, b.screen);
}

#[test]
fn the_end_of_the_keys_confirms() {
    assert_eq!(selection(true, 24, &typed("4 5")), vec![4, 5]);
    assert_eq!(selection(true, 24, &Vec::new()), vec![1]);
    let a = handle_input(true, 24, &typed("4 5")).unwrap();
    let b = handle_input(true, 24, &typed("4 5\n")).unwrap();
    assert_eq!(a.screen, b.screen);
}

#[test]
fn a_trailing_space_leaves_an_invalid_entry() {
    assert_eq!(selection(true, 24, &typed("1 \n")), vec![1, -1]);
}

#[test]
fn a_number_too_large_is_invalid() {
    assert_eq!(selection(true, 24, &typed("1 99999999999 3\n")), vec![1, -1, 3]);
}

#[test]
fn numeric_characters_beyond_the_digits_are_ignored() {
    assert_eq!(selection(true, 24, &typed("\u{663}\n")), vec![1]);
    assert_eq!(selection(true, 24, &typed("\u{bd}\n")), vec![1]);
    assert_eq!(selection(true, 24, &typed("1 \u{be} 2\n")), vec![1, 2]);
    assert_eq!(selection(false, 24, &typed("1\u{b2}2\n")), vec![12]);
    let pkgs = two_packages();
    let t = package_selection(&pkgs, None, 24, &typed("\u{bd}\n")).unwrap();
    assert_eq!(t.selection, vec![1]);
}

#[test]
fn space_after_a_backspace_goes_by_what_the_buffer_ends_in() {
    let mut keys = typed("1 2");
    keys.push(Key::Backspace);
    keys.push(Key::Char(' '));
    keys.push(Key::Char('3'));
    keys.push(Key::Char('\n'));
    assert_eq!(selection(true, 24, &keys), vec![1, 3]);

    let mut keys = typed("1 2");
    keys.push(Key::Backspace);
    keys.push(Key::Backspace);
    keys.push(Key::Char(' '));
    keys.push(Key::Char('3'));
    keys.push(Key::Char('\n'));
    assert_eq!(selection(true, 24, &keys), vec![1, 3]);

    let mut keys = typed("1 ");
    keys.push(Key::Backspace);
    keys.push(Key::Char(' '));
    keys.push(Key::Char('3'));
    keys.push(Key::Char('\n'));
    assert_eq!(selection(true, 24, &keys), vec![1, 3]);

    let mut keys = typed("1");
    keys.push(Key::Backspace);
    keys.push(Key::Char(' '));
    keys.push(Key::Char('3'));
    keys.push(Key::Char('\n'));
    assert_eq!(selection(true, 24, &keys), vec![3]);
}

#[test]
fn the_buffer_never_holds_two_spaces_side_by_side() {
    let keys = vec![
        Key::Char('1'),
        Key::Char(' '),
        Key::Char(' '),
        Key::Char('2'),
        Key::Backspace,
        Key::Char(' '),
        Key::Backspace,
        Key::Char(' '),
        Key::Char(' '),
        Key::Char('3'),
        Key::Char(' '),
        Key::Char('4'),
        Key::Backspace,
        Key::Backspace,
        Key::Char(' '),
        Key::Char('5'),
    ];
    let mut s = fresh(true, 24);
    for key in keys {
        s.step(key);
        assert!(!s.buffer().contains("  "));
        assert!(!s.buffer().starts_with(' '));
        assert_eq!(s.last_char(), s.buffer().chars().last().unwrap_or(' '));
    }
    assert_eq!(s.buffer(), "1 3 5");
    s.step(Key::Char('\n'));
    assert_eq!(s.selected(), vec![1, 3, 5]);
}

#[test]
fn arrows_move_the_glyph_by_two_rows() {
    let mut s = fresh(true, 24);
    assert_eq!(s.row(), 20);
    assert_eq!(s.cursor_index(), 1);
    s.step(Key::Up);
    assert_eq!((s.row(), s.cursor_index()), (18, 2));
    s.step(Key::Up);
    assert_eq!((s.row(), s.cursor_index()), (16, 3));
    s.step(Key::Down);
    assert_eq!((s.row(), s.cursor_index()), (18, 2));
    s.step(Key::Char('\n'));
    assert_eq!(s.selected(), vec![2]);
}

#[test]
fn up_stops_at_the_top_row() {
    let mut s = fresh(true, 10);
    assert_eq!(s.row(), 6);
    s.step(Key::Up);
    s.step(Key::Up);
    assert_eq!((s.row(), s.cursor_index()), (TOP_ROW, 3));
    let mut n = 0;
    while n < 10 {
        s.step(Key::Up);
        assert_eq!((s.row(), s.cursor_index()), (2, 3));
        n += 1;
    }
    assert_eq!(selection(true, 10, &vec![Key::Up; 40]), vec![3]);
}

#[test]
fn down_stops_at_the_starting_row() {
    let mut s = fresh(true, 10);
    s.step(Key::Down);
    assert_eq!((s.row(), s.cursor_index()), (10 - MARGIN, 1));
    s.step(Key::Up);
    s.step(Key::Down);
    s.step(Key::Down);
    s.step(Key::Down);
    assert_eq!((s.row(), s.cursor_index()), (6, 1));
    assert_eq!(selection(true, 10, &vec![Key::Down; 40]), vec![1]);
}

#[test]
fn on_an_odd_height_the_glyph_ends_on_row_one() {
    let mut s = fresh(true, 7);
    assert_eq!(s.row(), 3);
    s.step(Key::Up);
    assert_eq!((s.row(), s.cursor_index()), (1, 2));
    s.step(Key::Up);
    assert_eq!((s.row(), s.cursor_index()), (1, 2));
}

#[test]
fn arrows_work_while_text_is_typed() {
    let mut s = fresh(true, 24);
    s.step(Key::Char('7'));
    s.step(Key::Up);
    assert_eq!((s.row(), s.cursor_index()), (18, 2));
    assert_eq!(s.buffer(), "7");
    s.step(Key::Char('\n'));
    assert_eq!(s.selected(), vec![7]);
}

#[test]
fn heights_that_cannot_be_laid_out() {
    assert!(Selection::new(true, 0).is_none());
    assert!(Selection::new(true, 4).is_none());
    assert!(Selection::new(true, MIN_HEIGHT - 1).is_none());
    assert!(Selection::new(true, MIN_HEIGHT).is_some());
    assert!(Selection::new(true, MAX_HEIGHT).is_some());
    assert!(Selection::new(true, MAX_HEIGHT + 1).is_none());
    assert!(Selection::new(true, u16::MAX).is_none());
    assert!(handle_input(true, 4, &typed("1\n")).is_none());
    assert!(handle_input(false, 65531, &typed("1\n")).is_none());
    assert!(handle_input(true, 5, &typed("1\n")).is_some());
    assert!(handle_input(true, 65530, &typed("1\n")).is_some());
}

#[test]
fn a_fresh_state() {
    let s = fresh(false, 30);
    assert!(!s.multi());
    assert_eq!(s.height(), 30);
    assert_eq!(s.row(), 26);
    assert_eq!(s.cursor_index(), 1);
    assert_eq!(s.buffer(), "");
    assert_eq!(s.last_char(), ' ');
    assert_eq!(s.phase(), Phase::Reading);
    assert!(s.is_reading());
    assert_eq!(s.selected(), vec![1]);
}

#[test]
fn keys_are_told_apart() {
    assert_eq!(classify(Key::Char('q')), Event::Quit);
    assert_eq!(classify(Key::Char('Q')), Event::Ignored);
    assert_eq!(classify(Key::Char('5')), Event::Digit('5'));
    assert_eq!(classify(Key::Char(' ')), Event::Space);
    assert_eq!(classify(Key::Char('\n')), Event::Confirm);
    assert_eq!(classify(Key::Char('\r')), Event::Ignored);
    assert_eq!(classify(Key::Char('x')), Event::Ignored);
    assert_eq!(classify(Key::Char('-')), Event::Ignored);
    assert_eq!(classify(Key::Up), Event::Up);
    assert_eq!(classify(Key::Down), Event::Down);
    assert_eq!(classify(Key::Backspace), Event::Backspace);
    assert_eq!(classify(Key::Other), Event::Ignored);
    assert_eq!(classify(Key::Char('0')), Event::Digit('0'));
    assert_eq!(classify(Key::Char('9')), Event::Digit('9'));
    assert_eq!(classify(Key::Char('/')), Event::Ignored);
    assert_eq!(classify(Key::Char(':')), Event::Ignored);
    assert_eq!(classify(Key::Char('\u{663}')), Event::Ignored);
    assert_eq!(classify(Key::Char('\u{be}')), Event::Ignored);
    assert_eq!(classify(Key::Char('\u{bd}')), Event::Ignored);
    assert_eq!(classify(Key::Char('\u{2192}')), Event::Ignored);
}

#[test]
fn of_all_characters_only_the_ten_digits_are_digit_keys() {
    let mut code: u32 = 0;
    while code <= 0x10ffff {
        if let Some(c) = char::from_u32(code) {
            let expected = if c == 'q' {
                Event::Quit
            } else if c.is_ascii_digit() {
                Event::Digit(c)
            } else if c == ' ' {
                Event::Space
            } else if c == '\n' {
                Event::Confirm
            } else {
                Event::Ignored
            };
            assert_eq!(classify(Key::Char(c)), expected);
        }
        code += 1;
    }
}

#[test]
fn events_on_a_finished_prompt_change_nothing() {
    let mut s = fresh(true, 24);
    s.step(Key::Char('3'));
    s.step(Key::Char('\n'));
    assert_eq!(s.phase(), Phase::Confirmed);
    assert_eq!(s.apply(Event::Digit('4')), "");
    assert_eq!(s.apply(Event::Quit), "");
    assert_eq!(s.apply(Event::Up), "");
    assert_eq!(s.phase(), Phase::Confirmed);
    assert_eq!(s.buffer(), "3");
    assert_eq!(s.row(), 20);
    assert_eq!(s.selected(), vec![3]);

    let mut c = fresh(true, 24);
    c.step(Key::Char('q'));
    assert_eq!(c.phase(), Phase::Cancelled);
    assert_eq!(c.apply(Event::Confirm), "");
    assert_eq!(c.phase(), Phase::Cancelled);
    assert_eq!(c.selected(), Vec::<i32>::new());
}

#[test]
fn banner_for_one_and_for_several() {
    assert_eq!(
        banner(false),
        "=> \x1b[38;5;1mSelect package with arrow keys, or type item index\x1b[m\n\
         => \x1b[38;5;1m[Q] to quit, [Enter] to confirm.\x1b[m\n"
    );
    assert_eq!(
        banner(true),
        "=> \x1b[38;5;1mSelect package with arrow keys, or enter items seperated by space \
         (e.g. 1 2 3)\x1b[m\n=> \x1b[38;5;1m[Q] to quit, [Enter] to confirm.\x1b[m\n"
    );
}

#[test]
fn opening_draws_the_prompt_mark_and_the_glyph() {
    let s = fresh(true, 24);
    assert_eq!(s.opening(), "\x1b[24;0H=> \x1b[?25l\x1b[20;0H\u{2192}");
}

#[test]
fn text_drawn_for_each_event() {
    let mut s = fresh(true, 24);
    assert_eq!(s.apply(Event::Ignored), "\x1b[?25l\x1b[20;0H\u{2192}");
    assert_eq!(s.apply(Event::Space), "\x1b[?25l\x1b[20;0H\u{2192}");
    assert_eq!(s.apply(Event::Backspace), "\x1b[?25l\x1b[20;0H\u{2192}");
    assert_eq!(s.apply(Event::Up), "\x1b[20;0H \x1b[?25l\x1b[18;0H\u{2192}");
    assert_eq!(s.apply(Event::Down), "\x1b[18;0H \x1b[?25l\x1b[20;0H\u{2192}");
    assert_eq!(s.apply(Event::Down), "\x1b[20;0H \x1b[?25l\x1b[20;0H\u{2192}");
    assert_eq!(s.apply(Event::Digit('1')), "\x1b[20;0H \x1b[24;0H=> 1\x1b[?25h\x1b[27;5H");
    assert_eq!(s.apply(Event::Space), "\x1b[?25h\x1b[27;6H");
    assert_eq!(s.buffer(), "1 ");
    assert_eq!(s.apply(Event::Space), "\x1b[?25h\x1b[27;6H");
    assert_eq!(s.buffer(), "1 ");
    assert_eq!(s.apply(Event::Digit('2')), "\x1b[20;0H \x1b[24;0H=> 1 2\x1b[?25h\x1b[27;7H");
    assert_eq!(s.apply(Event::Up), "\x1b[20;0H \x1b[?25h\x1b[27;7H");
    assert_eq!(s.apply(Event::Backspace), "\x1b[24;0H\x1b[2K=> 1 \x1b[?25h\x1b[27;6H");
    assert_eq!(s.last_char(), ' ');
    assert_eq!(s.apply(Event::Backspace), "\x1b[24;0H\x1b[2K=> 1\x1b[?25h\x1b[27;5H");
    assert_eq!(s.last_char(), '1');
    assert_eq!(s.apply(Event::Backspace), "\x1b[24;0H\x1b[2K=> \x1b[?25l\x1b[18;0H\u{2192}");
    assert_eq!(s.last_char(), ' ');
    assert_eq!(s.apply(Event::Confirm), "\x1b[29;0H\n");
    assert_eq!(s.selected(), vec![2]);
}

#[test]
fn text_drawn_for_quit() {
    let mut s = fresh(false, 24);
    s.apply(Event::Digit('9'));
    assert_eq!(s.apply(Event::Quit), "\x1b[28;0H\n");
    assert_eq!(s.phase(), Phase::Cancelled);
}

#[test]
fn the_text_agrees_with_termion() {
    let mut s = fresh(true, 40);
    assert_eq!(
        s.opening(),
        format!("{}=> {}{}\u{2192}", cursor::Goto(0, 40), cursor::Hide, cursor::Goto(0, 36))
    );
    assert_eq!(
        s.apply(Event::Digit('8')),
        format!(
            "{} {}=> 8{}{}",
            cursor::Goto(0, 36),
            cursor::Goto(0, 40),
            cursor::Show,
            cursor::Goto(5, 43)
        )
    );
    assert_eq!(
        s.apply(Event::Backspace),
        format!(
            "{}{}=> {}{}\u{2192}",
            cursor::Goto(0, 40),
            clear::CurrentLine,
            cursor::Hide,
            cursor::Goto(0, 36)
        )
    );
    assert_eq!(s.apply(Event::Quit), format!("{}\n", cursor::Goto(0, 44)));
}

#[test]
fn a_digit_event_with_another_character_is_without_effect() {
    let mut s = fresh(true, 24);
    assert_eq!(s.apply(Event::Digit('x')), "\x1b[?25l\x1b[20;0H\u{2192}");
    assert_eq!(s.apply(Event::Digit(' ')), "\x1b[?25l\x1b[20;0H\u{2192}");
    assert_eq!(s.apply(Event::Digit('\u{663}')), "\x1b[?25l\x1b[20;0H\u{2192}");
    assert_eq!(s.buffer(), "");
    s.apply(Event::Digit('4'));
    assert_eq!(s.apply(Event::Digit(' ')), "\x1b[?25h\x1b[27;5H");
    assert_eq!(s.buffer(), "4");
    assert_eq!(s.last_char(), '4');
}

#[test]
fn the_column_wraps_at_sixteen_bits() {
    let mut s = fresh(false, 24);
    let mut n: u32 = 0;
    while n < 65531 {
        s.apply(Event::Digit('1'));
        n += 1;
    }
    assert!(s.apply(Event::Ignored).ends_with("\x1b[?25h\x1b[27;65535H"));
    assert!(s.apply(Event::Digit('1')).ends_with("\x1b[?25h\x1b[27;0H"));
    assert!(s.apply(Event::Digit('1')).ends_with("\x1b[?25h\x1b[27;1H"));
}

#[test]
fn the_transcript_is_the_text_of_every_step() {
    let keys = vec![
        Key::Up,
        Key::Char('1'),
        Key::Other,
        Key::Char(' '),
        Key::Char('x'),
        Key::Char('2'),
        Key::Backspace,
        Key::Down,
        Key::Char('\n'),
    ];
    let mut expected = banner(true);
    let mut s = fresh(true, 24);
    expected.push_str(&s.opening());
    for key in keys.iter() {
        expected.push_str(&s.step(*key));
    }
    let t = handle_input(true, 24, &keys).unwrap();
    assert_eq!(t.screen, expected);
    assert_eq!(t.errors, "");
    assert_eq!(t.selection, s.selected());
    assert_eq!(t.selection, vec![1, -1]);
}

#[test]
fn a_whole_prompt_for_one_number() {
    let t = handle_input(false, 24, &typed("7\n")).unwrap();
    assert_eq!(
        t.screen,
        "=> \x1b[38;5;1mSelect package with arrow keys, or type item index\x1b[m\n\
         => \x1b[38;5;1m[Q] to quit, [Enter] to confirm.\x1b[m\n\
         \x1b[24;0H=> \x1b[?25l\x1b[20;0H\u{2192}\
         \x1b[20;0H \x1b[24;0H=> 7\x1b[?25h\x1b[27;5H\
         \x1b[29;0H\n"
    );
    assert_eq!(t.selection, vec![7]);
}

fn two_packages() -> PackageInfoList {
    PackageInfoList {
        pkgs: vec![
            PackageInfo {
                name: "alpha".to_string(),
                version: "1.0".to_string(),
                source: "extra".to_string(),
                description: "first".to_string(),
            },
            PackageInfo {
                name: "beta".to_string(),
                version: "2.0".to_string(),
                source: "community".to_string(),
                description: "second".to_string(),
            },
        ],
    }
}

#[test]
fn package_selection_lists_then_prompts() {
    let pkgs = two_packages();
    let keys = typed("2 1\n");
    let t = package_selection(&pkgs, None, 24, &keys).unwrap();
    let prompt = handle_input(true, 24, &keys).unwrap();
    let expected = pkgs.listing() + &prompt.screen + "\x1b[?25h\x1b[m";
    assert_eq!(t.screen, expected);
    assert!(t.screen.starts_with(" 2 \x1b[38;5;4mextra\x1b[m/\x1b[38;5;14malpha\x1b[m"));
    assert_eq!(t.errors, "");
    assert_eq!(t.selection, vec![2, 1]);
}

#[test]
fn the_cursor_is_shown_again_however_the_prompt_ends() {
    let pkgs = two_packages();
    let ways = vec![
        typed("\n"),
        typed("q"),
        typed("1\n"),
        typed("12q"),
        typed("1 2"),
        vec![Key::Up, Key::Up, Key::Char('\n')],
        vec![Key::Up, Key::Char('q')],
        Vec::new(),
    ];
    for keys in ways {
        let t = package_selection(&pkgs, None, 24, &keys).unwrap();
        assert!(t.screen.ends_with("\x1b[?25h\x1b[m"));
    }
}

#[test]
fn a_load_error_is_reported_and_the_prompt_still_runs() {
    let pkgs = two_packages();
    let t = package_selection(&pkgs, Some("timed out"), 24, &typed("1\n")).unwrap();
    assert_eq!(t.errors, "Error: timed out\n");
    assert_eq!(t.selection, vec![1]);
    let plain = package_selection(&pkgs, None, 24, &typed("1\n")).unwrap();
    assert_eq!(t.screen, plain.screen);
}

#[test]
fn package_selection_needs_a_height_that_can_be_laid_out() {
    let pkgs = two_packages();
    assert!(package_selection(&pkgs, None, 3, &typed("1\n")).is_none());
    assert!(package_selection(&pkgs, Some("x"), 65535, &typed("1\n")).is_none());
}

#[test]
fn package_selection_takes_several_numbers() {
    let pkgs = two_packages();
    let t = package_selection(&pkgs, None, 24, &typed("1 2\n")).unwrap();
    assert_eq!(t.selection, vec![1, 2]);
    let quit = package_selection(&pkgs, None, 24, &typed("1 2q")).unwrap();
    assert_eq!(quit.selection, Vec::<i32>::new());
}

#[test]
fn a_label_typed_as_it_is_shown_selects_itself() {
    let mut n: u64 = 0;
    while n < 1200 {
        let mut shown = String::new();
        push_decimal(&mut shown, n);
        let mut keys = typed(&shown);
        keys.push(Key::Char('\n'));
        assert_eq!(selection(false, 24, &keys), vec![n as i32]);
        n += 1;
    }
    let mut shown = String::new();
    push_decimal(&mut shown, 2147483647);
    assert_eq!(selection(true, 24, &typed(&shown)), vec![i32::MAX]);
}

#[test]
fn several_labels_typed_with_single_spaces() {
    assert_eq!(selection(true, 24, &typed("10 20 30\n")), vec![10, 20, 30]);
    assert_eq!(selection(true, 24, &typed("3 2 1 0\n")), vec![3, 2, 1, 0]);
}

#[test]
fn the_buffer_holds_what_was_typed() {
    let mut s = fresh(true, 24);
    for key in typed("12 345 6") {
        s.step(key);
    }
    assert_eq!(s.buffer(), "12 345 6");
    assert_eq!(s.last_char(), '6');
    assert_eq!((s.row(), s.cursor_index()), (20, 1));
    assert!(s.is_reading());
}
