use lightstreamer_client::util::{clean_message, parse_arguments, parse_usize, to_decimal_string};

#[test]
fn test_clean_message_basic() {
    let text = "Hello\nWorld";
    let result = clean_message(text);
    assert_eq!(result, "helloworld");
}

#[test]
fn test_clean_message_with_carriage_return() {
    let text = "Hello\r\nWorld";
    let result = clean_message(text);
    assert_eq!(result, "helloworld");
}

#[test]
fn test_clean_message_lowercase_conversion() {
    let text = "Hello WORLD";
    let result = clean_message(text);
    assert_eq!(result, "hello world");
}

#[test]
fn test_clean_message_empty_string() {
    let text = "";
    let result = clean_message(text);
    assert_eq!(result, "");
}

#[test]
fn test_clean_message_preserve_braces_content() {
    // brace groups carry user payloads: their case and line breaks survive
    let text = "Message with {Preserved\nContent} and not preserved\nContent";
    let result = clean_message(text);
    assert_eq!(result, "message with {Preserved\nContent} and not preservedcontent");
}

#[test]
fn test_clean_message_nested_braces() {
    let text = "Message with {Outer{Inner\nContent}Outer} and regular\nContent";
    let result = clean_message(text);
    assert_eq!(result, "message with {Outer{Inner\nContent}Outer} and regularcontent");
}

#[test]
fn test_clean_message_unbalanced_braces() {
    // an unclosed group runs to the end of the line and survives verbatim
    let text = "Message with {Unbalanced and regular\nContent";
    let result = clean_message(text);
    assert_eq!(result, "message with {Unbalanced and regular\nContent");
}

#[test]
fn test_clean_message_protocol_example() {
    let text = "CONOK,S8f4aec42c3c14ad0,50000,5000,*\r\n";
    let result = clean_message(text);
    assert_eq!(result, "conok,s8f4aec42c3c14ad0,50000,5000,*");

    let text = "PROBE\r\n";
    let result = clean_message(text);
    assert_eq!(result, "probe");
}

#[test]
fn test_parse_arguments_basic() {
    let input = "arg1,arg2,arg3";
    let result = parse_arguments(input);
    assert_eq!(result, vec!["arg1", "arg2", "arg3"]);
}

#[test]
fn test_parse_arguments_empty_string() {
    // zero commas yield one piece; the empty token is significant
    let input = "";
    let result = parse_arguments(input);
    assert_eq!(result, vec![""]);
}

#[test]
fn test_parse_arguments_single_argument() {
    let input = "arg1";
    let result = parse_arguments(input);
    assert_eq!(result, vec!["arg1"]);
}

#[test]
fn test_parse_arguments_with_whitespace() {
    // pieces travel verbatim: whitespace may carry meaning in a value
    let input = " arg1 , arg2 , arg3 ";
    let result = parse_arguments(input);
    assert_eq!(result, vec![" arg1 ", " arg2 ", " arg3 "]);
}

#[test]
fn test_parse_arguments_empty_arguments() {
    // an empty token between two commas is kept in its slot
    let input = "arg1,,arg3";
    let result = parse_arguments(input);
    assert_eq!(result, vec!["arg1", "", "arg3"]);
}

#[test]
fn test_parse_arguments_with_braces() {
    let input = "arg1,{inner1,inner2},arg3";
    let result = parse_arguments(input);
    assert_eq!(result, vec!["arg1", "{inner1,inner2}", "arg3"]);
}

#[test]
fn test_parse_arguments_nested_braces() {
    let input = "arg1,{outer{inner1,inner2}outer},arg3";
    let result = parse_arguments(input);
    assert_eq!(result, vec!["arg1", "{outer{inner1,inner2}outer}", "arg3"]);
}

#[test]
fn test_parse_arguments_unbalanced_braces() {
    let input = "arg1,{unbalanced,arg3";
    let result = parse_arguments(input);
    // everything inside the unclosed group stays one argument
    assert_eq!(result, vec!["arg1", "{unbalanced,arg3"]);
}

#[test]
fn test_parse_arguments_protocol_examples() {
    let input = "CONOK,S8f4aec42c3c14ad0,50000,5000,*";
    let result = parse_arguments(input);
    assert_eq!(result, vec!["CONOK", "S8f4aec42c3c14ad0", "50000", "5000", "*"]);

    let input = "u,1,1,a|b|c";
    let result = parse_arguments(input);
    assert_eq!(result, vec!["u", "1", "1", "a|b|c"]);
}

#[test]
fn test_parse_arguments_keeps_empty_tokens() {
    // a lone comma separates two empty tokens
    assert_eq!(parse_arguments(","), vec!["", ""]);
    // an update frame with an empty field part keeps its four arguments
    assert_eq!(parse_arguments("U,1,1,"), vec!["U", "1", "1", ""]);
}

#[test]
fn test_parse_usize_accepts_digits_and_plus() {
    assert_eq!(parse_usize("0"), Some(0));
    assert_eq!(parse_usize("007"), Some(7));
    assert_eq!(parse_usize("+12"), Some(12));
    assert_eq!(parse_usize("18446744073709551615"), Some(usize::MAX));
}

#[test]
fn test_parse_usize_rejects_other_text() {
    assert_eq!(parse_usize(""), None);
    assert_eq!(parse_usize("+"), None);
    assert_eq!(parse_usize("12a"), None);
    assert_eq!(parse_usize("-3"), None);
    assert_eq!(parse_usize("18446744073709551616"), None);
}

#[test]
fn test_to_decimal_string() {
    assert_eq!(to_decimal_string(0), "0");
    assert_eq!(to_decimal_string(7), "7");
    assert_eq!(to_decimal_string(120), "120");
    assert_eq!(to_decimal_string(98765), "98765");
}
