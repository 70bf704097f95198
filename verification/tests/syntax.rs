use shell_core::assembler::{assemble, ends_with_operator, load_command_line, Assembly};
use shell_core::syntax::catch_sytax_error;

fn unexpected(token: &str) -> Option<String> {
    Some(format!("shell: syntax error near unexpected token '{}'", token))
}

#[test]
fn leading_pipe_is_a_syntax_error() {
    assert_eq!(catch_sytax_error("| ls"), unexpected("|"));
}

#[test]
fn leading_operators_are_named() {
    assert_eq!(catch_sytax_error("; ls"), unexpected(";"));
    assert_eq!(catch_sytax_error("&& ls"), unexpected("&&"));
    assert_eq!(catch_sytax_error("  \t| ls"), unexpected("|"));
    assert_eq!(catch_sytax_error("\u{3000};"), unexpected(";"));
    assert_eq!(catch_sytax_error(" &&"), unexpected("&&"));
    assert_eq!(catch_sytax_error("> f"), unexpected(">"));
    assert_eq!(catch_sytax_error(">> f"), unexpected(">>"));
    assert_eq!(catch_sytax_error("< f"), unexpected("<"));
    assert_eq!(catch_sytax_error("<< f"), unexpected("<<"));
}

#[test]
fn operators_with_a_left_operand_pass() {
    assert_eq!(catch_sytax_error("echo hello > out.txt"), None);
    assert_eq!(catch_sytax_error("ls | wc -l"), None);
    assert_eq!(catch_sytax_error("a ; b && c | d >> e << f < g"), None);
    assert_eq!(catch_sytax_error("ls"), None);
    assert_eq!(catch_sytax_error(""), None);
    assert_eq!(catch_sytax_error("   \n"), None);
    assert_eq!(catch_sytax_error("ls |"), None);
    assert_eq!(catch_sytax_error("a&b"), None);
    assert_eq!(catch_sytax_error("a &&& b"), None);
}

#[test]
fn doubled_redirection_is_one_operator() {
    assert_eq!(catch_sytax_error("a >> b"), None);
    assert_eq!(catch_sytax_error("a << b"), None);
    assert_eq!(catch_sytax_error("a>>b"), None);
}

#[test]
fn an_operator_after_an_operator_is_an_error() {
    assert_eq!(catch_sytax_error("ls | | wc"), unexpected("|"));
    assert_eq!(catch_sytax_error("ls || wc"), unexpected("|"));
    assert_eq!(catch_sytax_error("a ;; b"), unexpected(";"));
    assert_eq!(catch_sytax_error("a ; && b"), unexpected("&&"));
    assert_eq!(catch_sytax_error("ls > > f"), unexpected(">"));
    assert_eq!(catch_sytax_error("a >>> b"), unexpected(">"));
    assert_eq!(catch_sytax_error("a >>>> b"), unexpected(">>"));
    assert_eq!(catch_sytax_error("a >< b"), unexpected("<"));
    assert_eq!(catch_sytax_error("a | > f"), unexpected(">"));
    assert_eq!(catch_sytax_error("a | b ; | c"), unexpected("|"));
}

#[test]
fn quoted_operators_are_text() {
    assert_eq!(catch_sytax_error("echo \"|\" | wc"), None);
    assert_eq!(catch_sytax_error("echo \"; ;\""), None);
    assert_eq!(catch_sytax_error("\";\" ; ls"), None);
    assert_eq!(catch_sytax_error("a | \"\" | b"), None);
}

#[test]
fn odd_quotes_ask_for_another_line() {
    assert_eq!(assemble("echo \"abc\n"), Assembly::Reading);
    assert_eq!(assemble("\""), Assembly::Reading);
    assert_eq!(assemble("| \"ls\n"), Assembly::Reading);
    assert_eq!(assemble("echo \"a\" \"b\n"), Assembly::Reading);
    assert_eq!(load_command_line("echo \"abc\n", 10), Assembly::Reading);
}

#[test]
fn balanced_line_is_complete() {
    assert_eq!(assemble("echo \"abc\ndef\"\n"), Assembly::Complete);
    assert_eq!(assemble("ls -l\n"), Assembly::Complete);
    assert_eq!(assemble("ls ;\n"), Assembly::Complete);
    assert_eq!(assemble("\n"), Assembly::Complete);
    assert_eq!(assemble(""), Assembly::Complete);
    assert_eq!(load_command_line("ls -l\n", 6), Assembly::Complete);
}

#[test]
fn trailing_operator_asks_for_another_line() {
    assert_eq!(assemble("ls |\n"), Assembly::Reading);
    assert_eq!(assemble("ls &&  \n"), Assembly::Reading);
    assert_eq!(assemble("ls >\n"), Assembly::Reading);
    assert_eq!(assemble("ls >>\n"), Assembly::Reading);
    assert_eq!(assemble("cat <\n"), Assembly::Reading);
    assert_eq!(assemble("cat <<\n"), Assembly::Reading);
    assert_eq!(assemble("ls |\nwc\n"), Assembly::Complete);
    assert_eq!(assemble("ls &\n"), Assembly::Complete);
}

#[test]
fn continuation_is_judged_without_trailing_whitespace() {
    assert!(ends_with_operator("ls | \t\n"));
    assert!(ends_with_operator("&&"));
    assert!(ends_with_operator(">"));
    assert!(!ends_with_operator("ls ;"));
    assert!(!ends_with_operator("ls"));
    assert!(!ends_with_operator(""));
    assert!(!ends_with_operator("&"));
}

#[test]
fn misplaced_operator_rejects_the_buffer() {
    assert_eq!(
        assemble("| ls\n"),
        Assembly::Rejected("shell: syntax error near unexpected token '|'".to_string())
    );
    assert_eq!(
        assemble("ls ;; pwd |\n"),
        Assembly::Rejected("shell: syntax error near unexpected token ';'".to_string())
    );
    assert_eq!(
        load_command_line("| ls\n", 5),
        Assembly::Rejected("shell: syntax error near unexpected token '|'".to_string())
    );
}

#[test]
fn zero_bytes_end_the_input() {
    assert_eq!(load_command_line("", 0), Assembly::EndOfInput);
    assert_eq!(load_command_line("echo \"abc\n", 0), Assembly::EndOfInput);
    assert_eq!(load_command_line("ls |\n", 0), Assembly::EndOfInput);
}
