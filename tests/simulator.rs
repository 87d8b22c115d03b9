use token_operations::simulator::simulate_arch_execution;

#[test]
fn logs_each_msg_line() {
    let code = "fn main() {\n    msg!(\"Hello, Arch World!\");\n    let x = 1;\n\tmsg!(\"second\", x);  \n}\n";
    assert_eq!(
        simulate_arch_execution(code).unwrap(),
        "Program log: Hello, Arch World!\nProgram log: second\nProgram completed successfully\n"
    );
}

#[test]
fn no_messages_says_so() {
    assert_eq!(
        simulate_arch_execution("fn f() {}\n").unwrap(),
        "Program executed successfully (no output)\nProgram completed successfully\n"
    );
    assert_eq!(
        simulate_arch_execution("").unwrap(),
        "Program executed successfully (no output)\nProgram completed successfully\n"
    );
}

#[test]
fn message_spans_first_to_last_quote() {
    let code = "msg!(\"a {} \\\"q\\\" b\", v);";
    assert_eq!(
        simulate_arch_execution(code).unwrap(),
        "Program log: a {} \\\"q\\\" b\nProgram completed successfully\n"
    );
}

#[test]
fn lines_without_a_quoted_pair_log_nothing() {
    let code = "msg!(x);\nmsg!(\"unterminated);\n  // msg!(\"comment\");\nlet s = msg!(\"not at start\");\nmsg!(\"\");\n";
    assert_eq!(
        simulate_arch_execution(code).unwrap(),
        "Program log: \nProgram completed successfully\n"
    );
}

#[test]
fn crlf_and_unicode_whitespace_are_trimmed() {
    let code = "\u{3000}msg!(\"wide é\");\r\n\u{a0}msg!(\"nbsp\")\u{2003}";
    assert_eq!(
        simulate_arch_execution(code).unwrap(),
        "Program log: wide é\nProgram log: nbsp\nProgram completed successfully\n"
    );
}
