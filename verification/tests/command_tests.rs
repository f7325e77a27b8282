use ayiou::command::{
    ensure_no_extra_args, parse_command_line, parse_command_line_with_prefixes, parse_typed_arg,
    tokenize_command_args, ArgsParseError,
};
use ayiou::dispatch::{match_handler_command, normalize_command_prefixes, DispatchOptions};
use ayiou::model::{ChannelRef, MessageSegment, OutboundMessage};

#[test]
fn parse_command_line_strips_prefix_and_extracts_args() {
    let line = parse_command_line("/echo hello world", &["/", "!"]).unwrap();
    assert_eq!(line.command(), "echo");
    assert_eq!(line.args(), "hello world");
}

#[test]
fn tokenize_command_args_supports_quotes_and_escape() {
    let tokens =
        tokenize_command_args("\"hello world\" 'x y' z\\ z").expect("tokenize should succeed");
    assert_eq!(tokens, vec!["hello world", "x y", "z z"]);
}

#[test]
fn outbound_message_plain_text_keeps_text_segments() {
    let msg = OutboundMessage::new(
        ChannelRef::group("onebot", "42"),
        vec![
            MessageSegment::text("hello"),
            MessageSegment::Mention {
                user_id: "u1".to_string(),
            },
        ],
    );

    assert_eq!(msg.plain_text(), "hello @u1");
}

#[test]
fn parse_command_line_without_prefix_match_takes_first_word() {
    let line = parse_command_line("  ping   now ", &["/"]).unwrap();
    assert_eq!(line.command(), "ping");
    assert_eq!(line.args(), "now ");
    assert_eq!(line.prefix(), None);
    assert!(parse_command_line("   ", &["/"]).is_none());
}

#[test]
fn parse_command_line_prefers_the_listed_prefix_order() {
    let prefixes = vec!["!!".to_string(), "!".to_string()];
    let line = parse_command_line_with_prefixes("!!ban u2", &prefixes).unwrap();
    assert_eq!(line.command(), "ban");
    assert_eq!(line.prefix(), Some("!!"));
    assert_eq!(line.args(), "u2");
}

#[test]
fn prefix_alone_is_not_a_command() {
    let line = parse_command_line("/ help", &["/"]).unwrap();
    assert_eq!(line.command(), "/");
    assert_eq!(line.prefix(), None);
}

#[test]
fn tokenize_reports_unclosed_quote() {
    let err = tokenize_command_args("\"open").unwrap_err();
    assert!(!err.message().is_empty());
}

#[test]
fn tokenize_reports_dangling_escape() {
    let err = tokenize_command_args("abc\\").unwrap_err();
    assert!(!err.message().is_empty());
}

#[test]
fn tokenize_skips_empty_input() {
    assert_eq!(tokenize_command_args("   ").unwrap(), Vec::<String>::new());
}

#[test]
fn typed_args_are_read_in_order_and_extra_args_refused() {
    let tokens = vec!["12".to_string(), "-3".to_string(), "x".to_string()];
    let mut index = 0usize;
    let a: u64 = parse_typed_arg(&tokens, &mut index, "a").unwrap();
    let b: i64 = parse_typed_arg(&tokens, &mut index, "b").unwrap();
    assert_eq!(a, 12);
    assert_eq!(b, -3);
    assert_eq!(index, 2);
    assert!(ensure_no_extra_args(&tokens, index).is_err());
    assert!(ensure_no_extra_args(&tokens, 3).is_ok());
    let bad: Result<u64, ArgsParseError> = parse_typed_arg(&tokens, &mut index, "c");
    assert!(bad.is_err());
}

#[test]
fn missing_typed_arg_is_reported() {
    let tokens: Vec<String> = Vec::new();
    let mut index = 0usize;
    let missing: Result<u64, ArgsParseError> = parse_typed_arg(&tokens, &mut index, "count");
    assert!(missing.is_err());
    assert_eq!(index, 0);
}

#[test]
fn args_parse_error_carries_help() {
    let err = ArgsParseError::new("bad").with_help("usage: x");
    assert_eq!(err.message(), "bad");
    assert_eq!(err.help(), Some("usage: x"));
}

#[test]
fn command_prefixes_are_normalized_longest_first_without_empties_or_repeats() {
    let prefixes = normalize_command_prefixes(vec![
        "/".to_string(),
        "".to_string(),
        "!!".to_string(),
        "/".to_string(),
        ".".to_string(),
    ]);
    assert_eq!(prefixes, vec!["!!".to_string(), "/".to_string(), ".".to_string()]);
    let options = DispatchOptions::new(vec!["/".to_string(), "!".to_string(), ".".to_string()]);
    assert_eq!(options.command_prefixes(), &vec!["/".to_string(), "!".to_string(), ".".to_string()]);
}

#[test]
fn handler_command_falls_back_from_handler_to_global_to_bare() {
    let commands = vec!["ping".to_string()];
    let handler = vec!["#".to_string()];
    let global = vec!["/".to_string()];
    let by_handler = match_handler_command("#ping", &commands, &handler, &global).unwrap();
    assert_eq!(by_handler.prefix(), Some("#"));
    let by_global = match_handler_command("/ping x", &commands, &handler, &global).unwrap();
    assert_eq!(by_global.prefix(), Some("/"));
    assert_eq!(by_global.args(), "x");
    let bare = match_handler_command("ping", &commands, &handler, &global).unwrap();
    assert_eq!(bare.prefix(), None);
    assert!(match_handler_command("/pong", &commands, &handler, &global).is_none());
}

#[test]
fn typed_args_follow_the_standard_number_and_bool_syntax() {
    let tokens = vec![
        "+5".to_string(),
        "-0".to_string(),
        "true".to_string(),
        "True".to_string(),
        "-7".to_string(),
        "4294967296".to_string(),
    ];
    let mut index = 0usize;
    let plus: u32 = parse_typed_arg(&tokens, &mut index, "plus").unwrap();
    assert_eq!(plus, 5);
    let minus_zero: Result<u64, ArgsParseError> = parse_typed_arg(&tokens, &mut index, "zero");
    assert!(minus_zero.unwrap_err().message().starts_with("Failed to parse argument `zero`: "));
    let yes: bool = parse_typed_arg(&tokens, &mut index, "flag").unwrap();
    assert!(yes);
    let capital: Result<bool, ArgsParseError> = parse_typed_arg(&tokens, &mut index, "flag");
    assert!(capital.is_err());
    let small: i32 = parse_typed_arg(&tokens, &mut index, "n").unwrap();
    assert_eq!(small, -7);
    let too_big: Result<u32, ArgsParseError> = parse_typed_arg(&tokens, &mut index, "big");
    assert!(too_big.is_err());
    assert_eq!(index, 6);
    let mut again = 5usize;
    let wide: usize = parse_typed_arg(&tokens, &mut again, "big").unwrap();
    assert_eq!(wide, 4294967296);
}
