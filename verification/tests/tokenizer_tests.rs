use gosub_style::loader::{has_prefix, is_remote, plan_load, status_is_ok, strip_prefixes, LoadPlan};
use gosub_style::text::{char_is_whitespace, is_blank, to_chars};
use gosub_style::tokenizer::{classify_tokens, scan_tokens, statistics, tokenize_css, Statistics, Token};

fn other(s: &str) -> Token {
    Token::Other(s.to_string())
}

fn scan(s: &str) -> Vec<Token> {
    scan_tokens(&s.chars().collect())
}

#[test]
fn rule_with_a_property() {
    assert_eq!(
        tokenize_css("div { color: red; }"),
        vec![
            Token::Selector("div".to_string()),
            Token::OpenBrace,
            Token::Property("color".to_string(), "red".to_string()),
            Token::Semicolon,
            Token::CloseBrace,
        ]
    );
}

#[test]
fn scanning_keeps_words_and_punctuation() {
    assert_eq!(
        scan("a.b{c:d;}"),
        vec![
            other("a.b"),
            Token::OpenBrace,
            other("c"),
            Token::Colon,
            other("d"),
            Token::Semicolon,
            Token::CloseBrace,
        ]
    );
    assert_eq!(scan(""), vec![]);
    assert_eq!(scan(" \n\t "), vec![]);
    assert_eq!(scan("  x  "), vec![other("x")]);
    assert_eq!(scan("é\u{a0}ü"), vec![other("é"), other("ü")]);
}

#[test]
fn comments_are_tokens() {
    assert_eq!(scan("/* a */b"), vec![Token::Comment("/* a */".to_string()), other("b")]);
    assert_eq!(scan("/**/"), vec![Token::Comment("/**/".to_string())]);
    assert_eq!(scan("a/*b*/ c"), vec![other("a/*b*/"), other("c")]);
    assert_eq!(scan("/ *"), vec![other("/"), other("*")]);
    assert_eq!(scan("/*/"), vec![Token::Comment("/*".to_string()), other("/")]);
}

#[test]
fn unclosed_comment_ends_before_the_last_character() {
    assert_eq!(scan("/* ab"), vec![Token::Comment("/* a".to_string()), other("b")]);
    assert_eq!(scan("/*"), vec![Token::Comment("/*".to_string())]);
    assert_eq!(scan("/*x"), vec![Token::Comment("/*".to_string()), other("x")]);
    assert_eq!(scan("/* a *"), vec![Token::Comment("/* a ".to_string()), other("*")]);
}

#[test]
fn words_are_read_in_their_context() {
    let tokens = vec![other("a"), Token::Colon, other("b"), other("c"), Token::OpenBrace, other("d"), Token::Colon];
    assert_eq!(
        classify_tokens(&tokens),
        vec![
            Token::Property("a".to_string(), "b".to_string()),
            Token::Selector("c".to_string()),
            Token::OpenBrace,
            other("d"),
            Token::Colon,
        ]
    );
    assert_eq!(
        classify_tokens(&vec![other("a"), Token::Colon, Token::Semicolon]),
        vec![other("a"), Token::Colon, Token::Semicolon]
    );
    assert_eq!(classify_tokens(&vec![]), vec![]);
    assert_eq!(
        tokenize_css("a:hover{}"),
        vec![Token::Property("a".to_string(), "hover".to_string()), Token::OpenBrace, Token::CloseBrace]
    );
    assert_eq!(tokenize_css("h1, h2 {"), vec![other("h1,"), Token::Selector("h2".to_string()), Token::OpenBrace]);
}

#[test]
fn statistics_count_rules_properties_and_comments() {
    let tokens = tokenize_css("/* c */ a { b: c; d: e } /* f */ g { } h");
    assert_eq!(statistics(&tokens), Statistics { rules: 2, properties: 2, comments: 2 });
    assert_eq!(statistics(&vec![]), Statistics { rules: 0, properties: 0, comments: 0 });
}

#[test]
fn characters_of_a_text() {
    assert_eq!(to_chars("aé\u{1F600}"), vec!['a', 'é', '\u{1F600}']);
    assert_eq!(to_chars(""), Vec::<char>::new());
}

#[test]
fn white_space_is_what_the_standard_library_says() {
    for n in 0..0x11000u32 {
        if let Some(c) = char::from_u32(n) {
            assert_eq!(char_is_whitespace(c), c.is_whitespace());
        }
    }
    assert!(is_blank(""));
    assert!(is_blank(" \t\n"));
    assert!(!is_blank(" a "));
}

#[test]
fn prefixes() {
    assert!(has_prefix("http://x", "http://"));
    assert!(has_prefix("abc", ""));
    assert!(has_prefix("", ""));
    assert!(!has_prefix("htt", "http://"));
    assert!(!has_prefix("xhttp://", "http://"));
    assert!(is_remote("http://example.org/a.css"));
    assert!(is_remote("https://example.org/a.css"));
    assert!(!is_remote("ftp://example.org/a.css"));
    assert!(!is_remote("style.css"));
    assert_eq!(strip_prefixes("file:///tmp/a", "file://"), "/tmp/a");
    assert_eq!(strip_prefixes("file://file://a", "file://"), "a");
    assert_eq!(strip_prefixes("a/file://", "file://"), "a/file://");
    assert_eq!(strip_prefixes("abc", ""), "abc");
    assert_eq!(strip_prefixes("file://", "file://"), "");
}

#[test]
fn plans() {
    assert_eq!(plan_load("http", "http://a/b"), LoadPlan::Fetch);
    assert_eq!(plan_load("https", "https://a/b"), LoadPlan::Fetch);
    assert_eq!(plan_load("file", "file:///a/b.html"), LoadPlan::ReadFile("/a/b.html".to_string()));
    assert_eq!(plan_load("ftp", "ftp://a/b"), LoadPlan::Unsupported);
    assert_eq!(plan_load("", ""), LoadPlan::Unsupported);
    assert!(status_is_ok(200));
    assert!(!status_is_ok(204));
    assert!(!status_is_ok(404));
}
