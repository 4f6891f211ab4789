use tictactoe::input::parse_move;

/// The first two pieces of `line` that read as a number of 0 to 255.
fn first_two_numbers(line: &str) -> Option<(u8, u8)> {
    let numbers: Vec<u8> = line
        .split(|c: char| c.is_whitespace() || c == ',')
        .filter_map(|piece| piece.trim().parse().ok())
        .collect();
    if numbers.len() < 2 {
        None
    } else {
        Some((numbers[0], numbers[1]))
    }
}

#[test]
fn two_numbers_with_a_blank() {
    assert_eq!(parse_move("1 2"), Some((1, 2)));
    assert_eq!(parse_move("3 1\n"), Some((3, 1)));
    assert_eq!(parse_move("2 2\r\n"), Some((2, 2)));
}

#[test]
fn two_numbers_with_a_comma() {
    assert_eq!(parse_move("1,2"), Some((1, 2)));
    assert_eq!(parse_move("1, 2"), Some((1, 2)));
    assert_eq!(parse_move("1 ,2\n"), Some((1, 2)));
    assert_eq!(parse_move(",1,,2,"), Some((1, 2)));
}

#[test]
fn blanks_around_and_between() {
    assert_eq!(parse_move("   3    4   "), Some((3, 4)));
    assert_eq!(parse_move("\t3\t4\n"), Some((3, 4)));
    assert_eq!(parse_move("\u{b}5\u{c}6"), Some((5, 6)));
}

#[test]
fn every_white_space_character_separates() {
    for c in [
        '\u{9}', '\u{a}', '\u{b}', '\u{c}', '\u{d}', ' ', '\u{85}', '\u{a0}', '\u{1680}', '\u{2000}',
        '\u{2001}', '\u{2005}', '\u{200a}', '\u{2028}', '\u{2029}', '\u{202f}', '\u{205f}', '\u{3000}',
    ] {
        assert!(c.is_whitespace());
        assert_eq!(parse_move(&format!("7{}8", c)), Some((7, 8)));
    }
}

#[test]
fn characters_next_to_white_space_do_not_separate() {
    for c in ['\u{8}', '\u{e}', '\u{1f}', '!', '\u{84}', '\u{86}', '\u{9f}', '\u{a1}', '\u{167f}', '\u{1681}',
        '\u{1fff}', '\u{200b}', '\u{2027}', '\u{202a}', '\u{202e}', '\u{2030}', '\u{205e}', '\u{2060}',
        '\u{2fff}', '\u{3001}', '.', ';', '-', '/', ':', '+'] {
        assert!(!c.is_whitespace());
        assert_eq!(parse_move(&format!("7{}8", c)), None);
        assert_eq!(parse_move(&format!("7{}8 1 2", c)), Some((1, 2)));
    }
}

#[test]
fn more_than_two_numbers() {
    assert_eq!(parse_move("1 2 3"), Some((1, 2)));
    assert_eq!(parse_move("3,2,1,0"), Some((3, 2)));
    assert_eq!(parse_move("1 2 x"), Some((1, 2)));
    assert_eq!(parse_move("1 2 999"), Some((1, 2)));
}

#[test]
fn fewer_than_two_numbers() {
    assert_eq!(parse_move(""), None);
    assert_eq!(parse_move("\n"), None);
    assert_eq!(parse_move("   "), None);
    assert_eq!(parse_move(",,,"), None);
    assert_eq!(parse_move("1"), None);
    assert_eq!(parse_move("1\n"), None);
    assert_eq!(parse_move("12"), None);
    assert_eq!(parse_move("abc"), None);
    assert_eq!(parse_move("a b"), None);
    assert_eq!(parse_move("1 b"), None);
    assert_eq!(parse_move("a 2"), None);
}

#[test]
fn pieces_that_are_no_numbers_are_passed_over() {
    assert_eq!(parse_move("x 1 y 2"), Some((1, 2)));
    assert_eq!(parse_move("row 2, column 3"), Some((2, 3)));
    assert_eq!(parse_move("1a 2 3"), Some((2, 3)));
    assert_eq!(parse_move("a1 2 3"), Some((2, 3)));
    assert_eq!(parse_move("1.5 2"), None);
    assert_eq!(parse_move("(1,2)"), None);
    assert_eq!(parse_move("1;2"), None);
    assert_eq!(parse_move("\u{661} 1 2"), Some((1, 2)));
}

#[test]
fn sign_before_a_number() {
    assert_eq!(parse_move("+1 +2"), Some((1, 2)));
    assert_eq!(parse_move("+1,2"), Some((1, 2)));
    assert_eq!(parse_move("+0 +255"), Some((0, 255)));
    assert_eq!(parse_move("+ 1 2"), Some((1, 2)));
    assert_eq!(parse_move("+ 1"), None);
    assert_eq!(parse_move("++1 2"), None);
    assert_eq!(parse_move("1+ 2"), None);
    assert_eq!(parse_move("1+2 3"), None);
    assert_eq!(parse_move("-1 2"), None);
    assert_eq!(parse_move("-1 2 3"), Some((2, 3)));
    assert_eq!(parse_move("-0 1 2"), Some((1, 2)));
    assert_eq!(parse_move("+-1 1 2"), Some((1, 2)));
}

#[test]
fn numbers_up_to_255() {
    assert_eq!(parse_move("0 0"), Some((0, 0)));
    assert_eq!(parse_move("255 255"), Some((255, 255)));
    assert_eq!(parse_move("249 250"), Some((249, 250)));
    assert_eq!(parse_move("199 200"), Some((199, 200)));
    assert_eq!(parse_move("25 26"), Some((25, 26)));
    assert_eq!(parse_move("99 100"), Some((99, 100)));
    assert_eq!(parse_move("10 9"), Some((10, 9)));
}

#[test]
fn numbers_above_255_are_passed_over() {
    assert_eq!(parse_move("256 1"), None);
    assert_eq!(parse_move("1 256"), None);
    assert_eq!(parse_move("256 1 2"), Some((1, 2)));
    assert_eq!(parse_move("260 1 2"), Some((1, 2)));
    assert_eq!(parse_move("300 1 2"), Some((1, 2)));
    assert_eq!(parse_move("1000 1 2"), Some((1, 2)));
    assert_eq!(parse_move("2550 1 2"), Some((1, 2)));
    assert_eq!(parse_move("99999999999999999999999999 1 2"), Some((1, 2)));
    assert_eq!(parse_move("1 4294967297 2"), Some((1, 2)));
    assert_eq!(parse_move("1 18446744073709551617 2"), Some((1, 2)));
}

#[test]
fn leading_zeros() {
    assert_eq!(parse_move("01 002"), Some((1, 2)));
    assert_eq!(parse_move("000 0000000000000000000000255"), Some((0, 255)));
    assert_eq!(parse_move("0256 1 2"), Some((1, 2)));
    assert_eq!(parse_move("+007 08"), Some((7, 8)));
}

#[test]
fn every_pair_of_coordinates() {
    for row in 0..=255u8 {
        for col in [0u8, 1, 9, 10, 99, 100, 199, 200, 249, 250, 254, 255] {
            assert_eq!(parse_move(&format!("{} {}\n", row, col)), Some((row, col)));
            assert_eq!(parse_move(&format!("{},{}", col, row)), Some((col, row)));
        }
    }
}

#[test]
fn reads_a_line_as_the_standard_library_does() {
    let pieces = [
        "", "0", "1", "2", "9", "10", "25", "26", "255", "256", "2555", "+", "-", "+3", "-3", "++3", "3+", "03",
        "x", "1x", "x1", "1.0", "\u{663}", "\u{ff11}",
    ];
    let separators = [" ", ",", "\n", "\t", ", ", "\u{a0}", "\u{2003}", "\r\n"];
    for a in pieces {
        for b in pieces {
            for c in pieces {
                for sep in separators {
                    let line = format!("{}{}{}{}{}", a, sep, b, sep, c);
                    assert_eq!(parse_move(&line), first_two_numbers(&line));
                    let line = format!("{}{}{}{}{}{}", sep, a, sep, b, c, sep);
                    assert_eq!(parse_move(&line), first_two_numbers(&line));
                }
            }
        }
    }
}

#[test]
fn separators_are_the_comma_and_white_space_and_nothing_else() {
    let mut separators = 0;
    for code in 0..=0x10ffffu32 {
        let c = match char::from_u32(code) {
            Some(c) => c,
            None => continue,
        };
        let mut line = String::from("7");
        line.push(c);
        line.push('8');
        if c == ',' || c.is_whitespace() {
            separators += 1;
            assert_eq!(parse_move(&line), Some((7, 8)));
        } else {
            assert_eq!(parse_move(&line), None);
        }
    }
    assert_eq!(separators, 26);
}
