use shell_core::quote::{count_quotes, index_in_escape_scope};
use shell_core::syntax::operator_tokens;
use shell_core::text::{chars_of, is_whitespace, trim, trim_end};
use shell_core::tokenizer::{
    find_breaks, find_occurrences, split_with_chars, split_with_strs, token_chars,
};

#[test]
fn whitespace_agrees_with_the_standard_library() {
    let mut c = 0u32;
    while c <= 0x10FFFF {
        if let Some(ch) = char::from_u32(c) {
            assert_eq!(is_whitespace(ch), ch.is_whitespace(), "U+{:04X}", c);
        }
        c += 1;
    }
}

#[test]
fn trim_removes_whitespace_on_both_sides() {
    assert_eq!(trim("  ls -l \t\n"), "ls -l");
    assert_eq!(trim("ls"), "ls");
    assert_eq!(trim(" \t "), "");
    assert_eq!(trim(""), "");
    assert_eq!(trim("\u{3000}a b\u{a0}"), "a b");
    assert_eq!(trim("  ls -l \t\n"), "  ls -l \t\n".trim());
}

#[test]
fn trim_end_keeps_the_front() {
    assert_eq!(trim_end("  ls |  \n"), "  ls |");
    assert_eq!(trim_end("   "), "");
    assert_eq!(trim_end("a"), "a");
}

#[test]
fn chars_of_gives_every_character() {
    assert_eq!(chars_of("a\u{e9}\u{3000}b"), vec!['a', '\u{e9}', '\u{3000}', 'b']);
    assert_eq!(chars_of(""), Vec::<char>::new());
}

#[test]
fn offsets_between_a_pair_of_quotes_are_inside() {
    let line = "a \"b c\" d";
    let inside: Vec<usize> = (0..line.len()).filter(|&i| index_in_escape_scope(line, i)).collect();
    assert_eq!(inside, vec![3, 4, 5]);
}

#[test]
fn quote_characters_themselves_are_outside() {
    let line = "\"ab\"";
    assert!(!index_in_escape_scope(line, 0));
    assert!(index_in_escape_scope(line, 1));
    assert!(index_in_escape_scope(line, 2));
    assert!(!index_in_escape_scope(line, 3));
    assert!(!index_in_escape_scope(line, 4));
    assert!(!index_in_escape_scope(line, 400));
}

#[test]
fn an_unpaired_quote_opens_no_span() {
    assert!(!index_in_escape_scope("a \"b", 3));
    let line = "\"a\" \"b";
    assert!(index_in_escape_scope(line, 1));
    assert!(!index_in_escape_scope(line, 3));
    assert!(!index_in_escape_scope(line, 5));
}

#[test]
fn adjacent_quotes_enclose_nothing() {
    let line = "\"\"a\"\"";
    for i in 0..line.len() {
        assert!(!index_in_escape_scope(line, i));
    }
}

#[test]
fn offsets_are_character_offsets() {
    let line = "\u{e9}\"\u{e8}\"";
    assert!(index_in_escape_scope(line, 2));
    assert!(!index_in_escape_scope(line, 3));
}

#[test]
fn quotes_are_counted() {
    assert_eq!(count_quotes(""), 0);
    assert_eq!(count_quotes("echo \"a\" \"b"), 3);
    assert_eq!(count_quotes("'a'"), 0);
}

#[test]
fn split_at_sequencers() {
    assert_eq!(split_with_strs("a;b&&c", &[";", "&&"]), vec!["a", "b", "c"]);
    assert_eq!(split_with_strs("ls -l ; pwd", &[";", "&&"]), vec!["ls -l ", " pwd"]);
    assert_eq!(split_with_strs("abc", &[";", "&&"]), vec!["abc"]);
    assert_eq!(split_with_strs("", &[";", "&&"]), Vec::<&str>::new());
}

#[test]
fn split_skips_quoted_delimiters() {
    assert_eq!(
        split_with_strs("echo \"a;b\" ; ls", &[";", "&&"]),
        vec!["echo \"a;b\" ", " ls"]
    );
    assert_eq!(split_with_strs("echo \"a|b\"", &["|"]), vec!["echo \"a|b\""]);
}

#[test]
fn split_omits_empty_tokens() {
    assert_eq!(split_with_strs(";a", &[";"]), vec!["a"]);
    assert_eq!(split_with_strs("a;;b", &[";"]), vec!["a", "b"]);
    assert_eq!(split_with_strs("a;", &[";"]), vec!["a"]);
    assert_eq!(split_with_strs(";", &[";"]), Vec::<&str>::new());
}

#[test]
fn split_takes_occurrences_without_overlap() {
    assert_eq!(split_with_strs("a&&&b", &[";", "&&"]), vec!["a", "&b"]);
    assert_eq!(split_with_strs("a&b", &[";", "&&"]), vec!["a&b"]);
}

#[test]
fn split_ignores_an_empty_delimiter() {
    assert_eq!(split_with_strs("a;b", &["", ";"]), vec!["a", "b"]);
    assert_eq!(split_with_strs("ab", &[""]), vec!["ab"]);
}

#[test]
fn split_with_multibyte_text() {
    assert_eq!(split_with_strs("\u{e9}t\u{e9};\u{e0}", &[";"]), vec!["\u{e9}t\u{e9}", "\u{e0}"]);
}

#[test]
fn merge_of_doubled_redirection() {
    let line = "a >> b";
    let ops = operator_tokens();
    assert_eq!(split_with_strs(line, &ops), vec!["a ", " b"]);
    let occ = find_occurrences(&chars_of(line), &token_chars(&ops));
    assert_eq!(occ, vec![(2, 3)]);
    assert_eq!(ops[3], ">>");
}

#[test]
fn a_run_of_three_is_a_pair_and_a_single() {
    let ops = operator_tokens();
    let occ = find_occurrences(&chars_of("a >>> b"), &token_chars(&ops));
    assert_eq!(occ, vec![(2, 3), (4, 5)]);
    let occ = find_occurrences(&chars_of("a >< b"), &token_chars(&ops));
    assert_eq!(occ, vec![(2, 5), (3, 6)]);
    let occ = find_occurrences(&chars_of("a <<< b"), &token_chars(&ops));
    assert_eq!(occ, vec![(2, 4), (4, 6)]);
}

#[test]
fn occurrences_of_every_operator() {
    let ops = operator_tokens();
    let occ = find_occurrences(&chars_of("a;b|c&&d>>e<<f>g<h"), &token_chars(&ops));
    assert_eq!(occ, vec![(1, 0), (3, 1), (5, 2), (8, 3), (11, 4), (14, 5), (16, 6)]);
}

#[test]
fn operator_round_trip() {
    let ops = operator_tokens();
    let lines = [
        "echo hello > out.txt",
        "ls | wc -l ; pwd && echo \"a;b\" >> log",
        ";;a||b",
        "a >>> b << c",
        "",
        "\"unbalanced ; quote",
        "\u{e9} | \u{e8}",
    ];
    for line in lines {
        let chars = chars_of(line);
        let occ = find_occurrences(&chars, &token_chars(&ops));
        let mut rebuilt = String::new();
        let mut prev = 0;
        for (start, which) in occ {
            rebuilt.extend(&chars[prev..start]);
            rebuilt.push_str(ops[which]);
            prev = start + ops[which].chars().count();
        }
        rebuilt.extend(&chars[prev..]);
        assert_eq!(rebuilt, line);
    }
}

#[test]
fn words_at_runs_of_whitespace() {
    assert_eq!(split_with_chars("ls   -l\t-a"), vec!["ls", "-l", "-a"]);
    assert_eq!(split_with_chars("  ls  "), vec!["ls"]);
    assert_eq!(split_with_chars(""), Vec::<&str>::new());
    assert_eq!(split_with_chars(" \t "), Vec::<&str>::new());
    assert_eq!(split_with_chars("a\u{3000}b"), vec!["a", "b"]);
}

#[test]
fn quoted_whitespace_does_not_split() {
    assert_eq!(split_with_chars("echo \"a  b\" c"), vec!["echo", "\"a  b\"", "c"]);
    assert_eq!(split_with_chars("echo x\"a b\"y"), vec!["echo", "x\"a b\"y"]);
    assert_eq!(split_with_chars("echo 'a b'"), vec!["echo", "'a", "b'"]);
    assert_eq!(split_with_chars("echo \"a b"), vec!["echo", "\"a", "b"]);
}

#[test]
fn whitespace_round_trip() {
    let line = " ls  -l \"a b\"\t";
    let chars = chars_of(line);
    let breaks = find_breaks(&chars);
    assert_eq!(breaks, vec![(0, 1), (3, 1), (4, 1), (7, 1), (13, 1)]);
    let words = split_with_chars(line);
    let mut rebuilt = String::new();
    let mut prev = 0;
    let mut next_word = 0;
    for (start, width) in breaks {
        if prev < start {
            rebuilt.push_str(words[next_word]);
            next_word += 1;
        }
        rebuilt.extend(&chars[start..start + width]);
        prev = start + width;
    }
    if prev < chars.len() {
        rebuilt.push_str(words[next_word]);
        next_word += 1;
    }
    assert_eq!(next_word, words.len());
    assert_eq!(rebuilt, line);
}
