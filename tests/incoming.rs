use tcptalk::incoming::{classify_server_line, find_char, parse_message, take_line, ServerLine};

#[test]
fn take_line_splits_at_the_first_newline() {
    assert_eq!(take_line("no newline yet"), None);
    assert_eq!(take_line(""), None);
    assert_eq!(
        take_line("alice: hi\nbob: yo\n"),
        Some(("alice: hi".to_string(), "bob: yo\n".to_string()))
    );
    assert_eq!(take_line("\n"), Some((String::new(), String::new())));
    assert_eq!(take_line("é\nü"), Some(("é".to_string(), "ü".to_string())));
}

#[test]
fn find_char_gives_the_first_position() {
    assert_eq!(find_char("a:b:c", ':'), Some(1));
    assert_eq!(find_char("abc", ':'), None);
    assert_eq!(find_char("éé:", ':'), Some(2));
}

#[test]
fn roster_lines_are_parsed() {
    assert_eq!(
        classify_server_line("USER_LIST:[\"alice\",\"bob\"]"),
        ServerLine::Roster(vec!["alice".to_string(), "bob".to_string()])
    );
    assert_eq!(classify_server_line("  USER_LIST:[]\r"), ServerLine::Roster(Vec::new()));
    assert_eq!(classify_server_line("USER_LIST:not json"), ServerLine::Ignored);
    assert_eq!(classify_server_line("USER_LIST:[1,2]"), ServerLine::Ignored);
}

#[test]
fn blank_lines_are_ignored_and_others_shown() {
    assert_eq!(classify_server_line(""), ServerLine::Ignored);
    assert_eq!(classify_server_line(" \t\r"), ServerLine::Ignored);
    assert_eq!(
        classify_server_line("alice: hi"),
        ServerLine::Text("alice: hi\n".to_string())
    );
    assert_eq!(
        classify_server_line("user_list:[]"),
        ServerLine::Text("user_list:[]\n".to_string())
    );
}

#[test]
fn messages_split_at_the_first_colon() {
    let m = parse_message("alice:  hi: there \n").unwrap();
    assert_eq!(m.author, "alice");
    assert_eq!(m.content, "hi: there");
    let m = parse_message("bob has left the chat\n").unwrap();
    assert_eq!(m.author, "System");
    assert_eq!(m.content, "bob has left the chat");
    let m = parse_message(": x").unwrap();
    assert_eq!(m.author, "");
    assert_eq!(m.content, "x");
    assert!(parse_message("  \n").is_none());
}

