use randfile::{DataType, InputError, MenuAction, menu_action, parse_choice, parse_data_type,
    parse_element_count, parse_filename, trim_str};

#[test]
fn choice_one_runs_the_flow() {
    assert_eq!(menu_action(parse_choice("1\n")), MenuAction::CreateFile);
}

#[test]
fn choice_two_exits() {
    assert_eq!(menu_action(parse_choice(" 2 ")), MenuAction::Exit);
}

#[test]
fn out_of_range_choice_is_invalid() {
    assert_eq!(menu_action(parse_choice("9")), MenuAction::Invalid);
    assert_eq!(menu_action(parse_choice("0")), MenuAction::Invalid);
    assert_eq!(menu_action(parse_choice("-1")), MenuAction::Invalid);
}

#[test]
fn unparseable_choice_is_invalid() {
    assert_eq!(parse_choice("abc"), -1);
    assert_eq!(parse_choice(""), -1);
    assert_eq!(parse_choice("  "), -1);
    assert_eq!(parse_choice("12x"), -1);
    assert_eq!(menu_action(parse_choice("abc")), MenuAction::Invalid);
}

#[test]
fn choice_parses_signed_integers() {
    assert_eq!(parse_choice("+3"), 3);
    assert_eq!(parse_choice("-7"), -7);
    assert_eq!(parse_choice("2147483647"), 2147483647);
    assert_eq!(parse_choice("-2147483648"), -2147483648);
}

#[test]
fn choice_out_of_width_falls_back() {
    assert_eq!(parse_choice("2147483648"), -1);
    assert_eq!(parse_choice("-2147483649"), -1);
    assert_eq!(parse_choice("99999999999999999999"), -1);
}

#[test]
fn data_type_accepts_both_cases() {
    assert_eq!(parse_data_type("i"), Ok(DataType::Integer));
    assert_eq!(parse_data_type("I"), Ok(DataType::Integer));
    assert_eq!(parse_data_type("f"), Ok(DataType::Float));
    assert_eq!(parse_data_type("F"), Ok(DataType::Float));
    assert_eq!(parse_data_type(" f \n"), Ok(DataType::Float));
    assert_eq!(parse_data_type("int"), Ok(DataType::Integer));
}

#[test]
fn data_type_rejects_other_input() {
    assert_eq!(parse_data_type("x"), Err(InputError::InvalidDataType));
    assert_eq!(parse_data_type(""), Err(InputError::InvalidDataType));
    assert_eq!(parse_data_type("   "), Err(InputError::InvalidDataType));
    assert_eq!(parse_data_type("3"), Err(InputError::InvalidDataType));
}

#[test]
fn element_count_parses_whole_numbers() {
    assert_eq!(parse_element_count("5"), Ok(5));
    assert_eq!(parse_element_count("0"), Ok(0));
    assert_eq!(parse_element_count("+7"), Ok(7));
    assert_eq!(parse_element_count(" 10 \n"), Ok(10));
    assert_eq!(parse_element_count("4294967295"), Ok(4294967295));
}

#[test]
fn element_count_rejects_bad_input() {
    assert_eq!(parse_element_count("-3"), Err(InputError::InvalidNumber));
    assert_eq!(parse_element_count("abc"), Err(InputError::InvalidNumber));
    assert_eq!(parse_element_count(""), Err(InputError::InvalidNumber));
    assert_eq!(parse_element_count("3.5"), Err(InputError::InvalidNumber));
    assert_eq!(parse_element_count("4294967296"), Err(InputError::InvalidNumber));
    assert_eq!(parse_element_count("+"), Err(InputError::InvalidNumber));
}

#[test]
fn filename_is_trimmed_verbatim() {
    assert_eq!(parse_filename(" out.txt \n"), "out.txt");
    assert_eq!(parse_filename("a b.txt"), "a b.txt");
    assert_eq!(parse_filename("\t\n"), "");
}

#[test]
fn trim_removes_surrounding_whitespace_only() {
    assert_eq!(trim_str("  hello world \r\n"), "hello world");
    assert_eq!(trim_str(""), "");
    assert_eq!(trim_str("x"), "x");
    assert_eq!(trim_str("\u{a0} nbsp \u{a0}"), "nbsp");
}

#[test]
fn error_messages_match_the_flow() {
    assert_eq!(InputError::InvalidDataType.message(), "Invalid data type");
    assert_eq!(InputError::InvalidNumber.message(), "Invalid number");
}
