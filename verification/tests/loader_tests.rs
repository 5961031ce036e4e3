use carbon1dot1_assembler::loader::{
    char_is_space, disassemble_text, parse_binary_text, to_binary_text, LoadError,
};

#[test]
fn one_byte_on_each_line() {
    assert_eq!(parse_binary_text("00000001\n11111111\n00011100\n"), Ok(vec![1, 255, 28]));
    assert_eq!(parse_binary_text("00000001\n11111111\n00011100"), Ok(vec![1, 255, 28]));
    assert_eq!(parse_binary_text("10100001"), Ok(vec![161]));
}

#[test]
fn empty_text_has_no_bytes() {
    assert_eq!(parse_binary_text(""), Ok(vec![]));
    assert_eq!(parse_binary_text("\n"), Ok(vec![]));
    assert_eq!(parse_binary_text("\n\n  \n\t\r\n"), Ok(vec![]));
    assert_eq!(parse_binary_text("   "), Ok(vec![]));
}

#[test]
fn blank_lines_and_white_space_do_not_count() {
    assert_eq!(
        parse_binary_text("\n  00000011  \r\n\r\n\t00000100\n\n\n 00000101"),
        Ok(vec![3, 4, 5])
    );
    assert_eq!(parse_binary_text("\u{a0}1\u{3000}\n\u{2003}10\u{85}"), Ok(vec![1, 2]));
}

#[test]
fn digits_may_be_few_or_many_or_signed() {
    assert_eq!(parse_binary_text("0\n1\n101\n+11\n0000000000011\n+0"), Ok(vec![0, 1, 5, 3, 3, 0]));
    assert_eq!(parse_binary_text("011111111"), Ok(vec![255]));
}

#[test]
fn number_above_255_is_malformed() {
    assert_eq!(
        parse_binary_text("00000001\n100000000\n1"),
        Err(LoadError::MalformedLine("100000000".to_string()))
    );
    assert_eq!(
        parse_binary_text("1111111111111111111111111111111111111111111111111111111111111111111111"),
        Err(LoadError::MalformedLine(
            "1111111111111111111111111111111111111111111111111111111111111111111111".to_string()
        ))
    );
}

#[test]
fn other_characters_are_malformed() {
    assert_eq!(
        parse_binary_text("00000001\n  0000002 \n1"),
        Err(LoadError::MalformedLine("0000002".to_string()))
    );
    assert_eq!(parse_binary_text("hlt"), Err(LoadError::MalformedLine("hlt".to_string())));
    assert_eq!(parse_binary_text("+"), Err(LoadError::MalformedLine("+".to_string())));
    assert_eq!(parse_binary_text("-1"), Err(LoadError::MalformedLine("-1".to_string())));
    assert_eq!(parse_binary_text("++1"), Err(LoadError::MalformedLine("++1".to_string())));
    assert_eq!(parse_binary_text("1 1"), Err(LoadError::MalformedLine("1 1".to_string())));
    assert_eq!(parse_binary_text("0b1"), Err(LoadError::MalformedLine("0b1".to_string())));
    assert_eq!(parse_binary_text("1\n\u{e9}1\u{e9}\n"), Err(LoadError::MalformedLine("\u{e9}1\u{e9}".to_string())));
}

#[test]
fn first_malformed_line_is_reported() {
    assert_eq!(
        parse_binary_text("1\nfirst\nsecond\n"),
        Err(LoadError::MalformedLine("first".to_string()))
    );
}

#[test]
fn loading_agrees_with_the_standard_library() {
    let lines = [
        "0", "1", "+1", "-1", "", " ", "11111111", "100000000", "0000000001", "2", "1a", "+",
        "+-1", "1+", "\t101\r", "１", "1_0",
    ];
    for line in lines {
        let trimmed = line.trim();
        let ours = parse_binary_text(line);
        if trimmed.is_empty() {
            assert_eq!(ours, Ok(vec![]));
        } else {
            match u8::from_str_radix(trimmed, 2) {
                Ok(b) => assert_eq!(ours, Ok(vec![b])),
                Err(_) => assert_eq!(ours, Err(LoadError::MalformedLine(trimmed.to_string()))),
            }
        }
    }
}

#[test]
fn white_space_is_what_the_standard_library_says() {
    for n in 0..0x11_0000u32 {
        if let Some(c) = char::from_u32(n) {
            assert_eq!(char_is_space(c), c.is_whitespace());
        }
    }
}

#[test]
fn listing_of_a_text() {
    assert_eq!(
        disassemble_text("01101111\n00101010\n\n00011100\n"),
        Ok(vec![
            "0000: 01101111 00101010 lir r3 0x2a".to_string(),
            "0002: 00011100 hlt".to_string(),
        ])
    );
    assert_eq!(
        disassemble_text("01101111\nxyz\n"),
        Err(LoadError::MalformedLine("xyz".to_string()))
    );
    assert_eq!(disassemble_text(""), Ok(vec![]));
}

#[test]
fn bytes_as_text() {
    assert_eq!(to_binary_text(&[]), "");
    assert_eq!(to_binary_text(&[0]), "00000000");
    assert_eq!(to_binary_text(&[1, 255, 28]), "00000001\n11111111\n00011100");
    assert_eq!(to_binary_text(&[0xa5, 0x5a]), "10100101\n01011010");
}

#[test]
fn text_of_bytes_loads_as_the_bytes() {
    let mut all: Vec<u8> = (0..=255u8).collect();
    all.extend((0..=255u8).rev());
    assert_eq!(parse_binary_text(&to_binary_text(&all)), Ok(all));
    for b in 0..=255u8 {
        assert_eq!(parse_binary_text(&to_binary_text(&[b])), Ok(vec![b]));
    }
    assert_eq!(parse_binary_text(&to_binary_text(&[])), Ok(vec![]));
}
