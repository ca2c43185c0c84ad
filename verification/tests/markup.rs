use libwau::toc::Toc;

#[test]
fn strip_hex_color() {
    assert_eq!(Toc::parse_colored_line("|cffff0000Hello|r World"), "Hello World");
}

#[test]
fn strip_named_color() {
    assert_eq!(Toc::parse_colored_line("|cnGREEN:Go|r!"), "Go!");
}

#[test]
fn strip_without_markup_is_identity() {
    assert_eq!(Toc::parse_colored_line("no markup here"), "no markup here");
    assert_eq!(Toc::parse_colored_line(""), "");
    assert_eq!(Toc::parse_colored_line("a|b|r c"), "a|b|r c");
}

#[test]
fn strip_unterminated_marker_is_kept() {
    assert_eq!(Toc::parse_colored_line("|cff0000start"), "|cff0000start");
    assert_eq!(Toc::parse_colored_line("before |cff0000start"), "before |cff0000start");
}

#[test]
fn strip_several_passages() {
    assert_eq!(
        Toc::parse_colored_line("a |cff00ff00green|r b |cnRED:red|r c"),
        "a green b red c"
    );
}

#[test]
fn strip_keeps_text_after_an_unterminated_marker() {
    assert_eq!(
        Toc::parse_colored_line("|cff00ff00ok|r then |cff00ff00open"),
        "ok then |cff00ff00open"
    );
}

#[test]
fn strip_named_passage_may_hold_colons() {
    assert_eq!(Toc::parse_colored_line("|cnRED:a:b|r"), "a:b");
}

#[test]
fn strip_keeps_a_pair_of_neither_shape() {
    assert_eq!(Toc::parse_colored_line("|cff|r"), "|cff|r");
    assert_eq!(Toc::parse_colored_line("|c|r"), "|c|r");
    assert_eq!(Toc::parse_colored_line("|cnRED|r"), "|cnRED|r");
    assert_eq!(Toc::parse_colored_line("x|cnRED|ry|cff112233z|r"), "x|cnRED|ryz");
}

#[test]
fn strip_eight_characters_of_colour() {
    assert_eq!(Toc::parse_colored_line("|c12345678|r"), "");
    assert_eq!(Toc::parse_colored_line("|cffffffffé|r"), "é");
}

#[test]
fn escape_sequence_hex() {
    assert_eq!(Toc::parse_escape_sequence("|cffff0000Hello|r"), "Hello");
}

#[test]
fn escape_sequence_named() {
    assert_eq!(Toc::parse_escape_sequence("|cnGREEN:Go|r"), "Go");
}

#[test]
fn escape_sequence_of_neither_shape_is_kept() {
    assert_eq!(Toc::parse_escape_sequence("|cff|r"), "|cff|r");
    assert_eq!(Toc::parse_escape_sequence("plain"), "plain");
    assert_eq!(Toc::parse_escape_sequence("|c|"), "|c|");
}
