use ayiou::extract::{command_arguments, split_words, Args, GroupId, Rest, TupleArgs, UserId};

#[test]
fn rest_joins_the_words_after_the_command() {
    assert_eq!(Rest::from_text("/echo  hello   world ").0, "hello world");
    assert_eq!(Rest::from_text("/echo").0, "");
    assert_eq!(Rest::from_text("").0, "");
    assert_eq!(Rest::from_text("  cmd\ta\nb").0, "a b");
}

#[test]
fn words_split_on_unicode_whitespace() {
    assert_eq!(split_words(" a\u{3000}b  c "), vec!["a".to_string(), "b".to_string(), "c".to_string()]);
    assert!(split_words("   ").is_empty());
    assert_eq!(command_arguments("/roll 2 d6"), vec!["2".to_string(), "d6".to_string()]);
    assert!(command_arguments("/roll").is_empty());
}

#[test]
fn ids_are_taken_as_given() {
    assert_eq!(UserId::from_user("42").0, "42");
    assert_eq!(GroupId::from_group(Some("7")).0, Some("7".to_string()));
    assert_eq!(GroupId::from_group(None).0, None);
}

#[test]
fn args_parse_the_words_after_the_command_in_order() {
    let Args((count, sides)) = Args::<(u32, String)>::from_text("/roll 3 d6 extra").unwrap();
    assert_eq!(count, 3);
    assert_eq!(sides, "d6");
    let Args((a, b, c)) = Args::<(i64, bool, u64)>::from_text("calc -5 true 9").unwrap();
    assert_eq!((a, b, c), (-5, true, 9));
    let Args((only,)) = Args::<(usize,)>::from_text("/page 12").unwrap();
    assert_eq!(only, 12);
}

#[test]
fn args_report_the_first_missing_place() {
    let err = Args::<(u32, String)>::from_text("/roll").err().unwrap();
    assert_eq!(err, "Missing argument 1");
    let err = Args::<(u32, String)>::from_text("/roll 3").err().unwrap();
    assert_eq!(err, "Missing argument 2");
    let err = Args::<(u32, u32, u32)>::from_text("/sum 1 2").err().unwrap();
    assert_eq!(err, "Missing argument 3");
}

#[test]
fn args_stop_at_a_word_that_does_not_parse() {
    let err = Args::<(u32, String)>::from_text("/roll many").err().unwrap();
    assert_ne!(err, "Missing argument 2");
    assert!(!err.is_empty());
    assert!(Args::<(bool,)>::from_text("/flag yes").is_err());
}

#[test]
fn tuple_args_start_at_the_given_word() {
    let words = split_words("skip 4 5");
    let mut index = 1usize;
    let (x, y) = <(u64, u64)>::parse_from_words(&words, &mut index).unwrap();
    assert_eq!((x, y), (4, 5));
    assert_eq!(index, 3);
    let mut at_end = 3usize;
    assert_eq!(<(u64,)>::parse_from_words(&words, &mut at_end).err().unwrap(), "Missing argument 1");
    assert_eq!(at_end, 3);
}
