use township::addresses::split_addresses;

#[test]
fn one_address_per_line() {
    assert_eq!(
        split_addresses("1 Main St, Springfield, OH\n2 Oak Ave, Dayton, OH"),
        vec!["1 Main St, Springfield, OH", "2 Oak Ave, Dayton, OH"]
    );
}

#[test]
fn trailing_line_feed_leaves_an_empty_address() {
    assert_eq!(split_addresses("a\nb\n"), vec!["a", "b", ""]);
}

#[test]
fn empty_text_is_one_empty_address() {
    assert_eq!(split_addresses(""), vec![""]);
}

#[test]
fn text_without_line_feed_is_one_address() {
    assert_eq!(split_addresses("only one"), vec!["only one"]);
}

#[test]
fn blank_lines_are_kept() {
    assert_eq!(split_addresses("\n"), vec!["", ""]);
    assert_eq!(split_addresses("a\n\n\nb"), vec!["a", "", "", "b"]);
    assert_eq!(split_addresses("\na"), vec!["", "a"]);
}

#[test]
fn nothing_is_trimmed() {
    assert_eq!(split_addresses("  a \n\tb\t"), vec!["  a ", "\tb\t"]);
}

#[test]
fn carriage_return_stays_with_its_line() {
    assert_eq!(split_addresses("a\r\nb\r\n"), vec!["a\r", "b\r", ""]);
}

#[test]
fn characters_beyond_ascii_are_kept() {
    assert_eq!(
        split_addresses("Stra\u{df}e 1, M\u{fc}nchen\n\u{6771}\u{4eac}\u{90fd}\n\u{1f3e0} home"),
        vec!["Stra\u{df}e 1, M\u{fc}nchen", "\u{6771}\u{4eac}\u{90fd}", "\u{1f3e0} home"]
    );
}

#[test]
fn lines_joined_by_line_feeds_give_the_text_back() {
    for text in ["", "\n", "a", "a\n", "\na", "a\nb\n\nc", "x\r\ny", "\n\n\n"] {
        let lines = split_addresses(text);
        assert_eq!(lines.join("\n"), text);
        assert_eq!(lines.len(), text.matches('\n').count() + 1);
        assert!(lines.iter().all(|line| !line.contains('\n')));
    }
}

#[test]
fn split_agrees_with_the_standard_split() {
    for text in ["", "a", "a\nb", "a\nb\n", "\n\na\n", "  \n x \n", "\u{e9}\n\u{e8}"] {
        let expected: Vec<String> = text.split("\n").map(|line| line.to_string()).collect();
        assert_eq!(split_addresses(text), expected);
    }
}
