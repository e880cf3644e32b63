use martian_robots::text::{
    chars_of, is_whitespace, parse_i32, part_of, push_decimal, split, trim,
};

fn chars(s: &str) -> Vec<char> {
    s.chars().collect()
}

fn text(v: &[char]) -> String {
    v.iter().collect()
}

fn words_over(alphabet: &[char], longest: usize) -> Vec<String> {
    let mut all = vec![String::new()];
    let mut last = vec![String::new()];
    for _ in 0..longest {
        let mut next = Vec::new();
        for w in &last {
            for c in alphabet {
                let mut longer = w.clone();
                longer.push(*c);
                next.push(longer);
            }
        }
        all.extend(next.iter().cloned());
        last = next;
    }
    all
}

#[test]
fn chars_of_gives_every_character() {
    assert_eq!(chars_of(""), Vec::<char>::new());
    assert_eq!(chars_of("3 4 E"), vec!['3', ' ', '4', ' ', 'E']);
    assert_eq!(chars_of("a\u{e9}\u{1F600}\n"), vec!['a', '\u{e9}', '\u{1F600}', '\n']);
}

#[test]
fn part_of_copies_a_range() {
    let s = chars("hello");
    assert_eq!(part_of(&s, 1, 4), chars("ell"));
    assert_eq!(part_of(&s, 0, 5), s);
    assert_eq!(part_of(&s, 2, 2), Vec::<char>::new());
    assert_eq!(part_of(&s, 5, 5), Vec::<char>::new());
}

#[test]
fn white_space_is_what_the_standard_library_takes_for_it() {
    let mut count = 0;
    for code in 0..=0x10FFFFu32 {
        if let Some(c) = char::from_u32(code) {
            assert_eq!(is_whitespace(c), c.is_whitespace(), "U+{:04X}", code);
            if is_whitespace(c) {
                count += 1;
            }
        }
    }
    assert_eq!(count, 25);
}

#[test]
fn trim_takes_white_space_from_both_ends_only() {
    assert_eq!(text(&trim(&chars("  a b \n"))), "a b");
    assert_eq!(text(&trim(&chars("a"))), "a");
    assert_eq!(text(&trim(&chars(""))), "");
    assert_eq!(text(&trim(&chars(" \t\r\n"))), "");
    assert_eq!(text(&trim(&chars("\u{3000}x\u{a0}y\u{2003}"))), "x\u{a0}y");
}

#[test]
fn trim_agrees_with_the_standard_library() {
    for w in words_over(&[' ', '\n', 'a', '\u{a0}', '-'], 6) {
        assert_eq!(text(&trim(&chars(&w))), w.trim(), "{:?}", w);
    }
}

#[test]
fn split_keeps_empty_parts() {
    let parts = split(&chars("3  4 E"), ' ');
    assert_eq!(parts, vec![chars("3"), chars(""), chars("4"), chars("E")]);
    assert_eq!(split(&chars(""), ' '), vec![chars("")]);
    assert_eq!(split(&chars(" "), ' '), vec![chars(""), chars("")]);
    assert_eq!(split(&chars("abc"), ' '), vec![chars("abc")]);
    assert_eq!(split(&chars("a,b"), ','), vec![chars("a"), chars("b")]);
    assert_eq!(split(&chars(" a "), ' '), vec![chars(""), chars("a"), chars("")]);
}

#[test]
fn split_agrees_with_the_standard_library() {
    for w in words_over(&[' ', 'a', 'b', '\t'], 7) {
        let expected: Vec<Vec<char>> = w.split(' ').map(chars).collect();
        assert_eq!(split(&chars(&w), ' '), expected, "{:?}", w);
    }
}

#[test]
fn numbers_are_read_in_decimal() {
    assert_eq!(parse_i32(&chars("0")), Some(0));
    assert_eq!(parse_i32(&chars("42")), Some(42));
    assert_eq!(parse_i32(&chars("-42")), Some(-42));
    assert_eq!(parse_i32(&chars("+42")), Some(42));
    assert_eq!(parse_i32(&chars("-0")), Some(0));
    assert_eq!(parse_i32(&chars("000123")), Some(123));
    assert_eq!(parse_i32(&chars("2147483647")), Some(i32::MAX));
    assert_eq!(parse_i32(&chars("-2147483648")), Some(i32::MIN));
    assert_eq!(parse_i32(&chars("00000000000000000000000002147483647")), Some(i32::MAX));
}

#[test]
fn what_is_no_number_is_not_read() {
    let bad = [
        "", "+", "-", "+-1", "--1", "1-", "1+", " 1", "1 ", "1.0", "1e3", "0x10", "a", "12a",
        "2147483648", "-2147483649", "+2147483648", "99999999999999999999999999",
        "-99999999999999999999999999", "\u{661}", "\u{ff11}",
    ];
    for s in bad {
        assert_eq!(parse_i32(&chars(s)), None, "{:?}", s);
    }
}

#[test]
fn numbers_are_read_as_the_standard_library_reads_them() {
    for w in words_over(&['+', '-', '0', '1', '9', ' ', 'x'], 5) {
        assert_eq!(parse_i32(&chars(&w)), w.parse::<i32>().ok(), "{:?}", w);
    }
    let around: [i64; 9] = [
        -2147483650, -2147483649, -2147483648, -2147483647, -1, 0, 2147483646, 2147483647,
        2147483648,
    ];
    for v in around {
        for w in [format!("{}", v), format!("+{}", v), format!("0{}", v), format!("{}0", v)] {
            assert_eq!(parse_i32(&chars(&w)), w.parse::<i32>().ok(), "{:?}", w);
        }
    }
}

#[test]
fn numbers_are_written_in_decimal() {
    let cases = [
        (0, "0"),
        (7, "7"),
        (10, "10"),
        (-1, "-1"),
        (-10, "-10"),
        (1234567890, "1234567890"),
        (i32::MAX, "2147483647"),
        (i32::MIN, "-2147483648"),
    ];
    for (v, expected) in cases {
        let mut s = String::new();
        push_decimal(&mut s, v);
        assert_eq!(s, expected);
    }
}

#[test]
fn numbers_are_written_after_what_is_there() {
    let mut s = String::from("x=");
    push_decimal(&mut s, -305);
    push_decimal(&mut s, 42);
    assert_eq!(s, "x=-30542");
}

#[test]
fn numbers_are_written_as_the_standard_library_writes_them() {
    let mut v: i64 = i32::MIN as i64;
    while v <= i32::MAX as i64 {
        let mut s = String::new();
        push_decimal(&mut s, v as i32);
        assert_eq!(s, format!("{}", v));
        assert_eq!(parse_i32(&chars(&s)), Some(v as i32));
        v += 100_003;
    }
    for v in -1100..1100 {
        let mut s = String::new();
        push_decimal(&mut s, v);
        assert_eq!(s, format!("{}", v));
    }
}
