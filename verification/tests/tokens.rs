use krpcgen::lexer::generic::matcher::{
    AllowedCharMatcher, CharSequenceMatcher, GroupMatcher, IntegerMatcher, SequenceMatcher,
    TextMaker,
};
use krpcgen::lexer::generic::{Char, Matcher, MatcherState, State, TokenIterator};
use krpcgen::lexer::Error;
use krpcgen::rpc::token::{Bracket, Keyword, Literal, Operator, Separator, Token, Type};
use krpcgen::rpc_lexer::{lexer, Whitespace};
use krpcgen::rpc_lexer::matcher::{allowed_chars, Fixed, Follow, Number};
use krpcgen::text::{indent, signed_text, unsigned_text};

fn scan(source: &str) -> Vec<Result<Token, Error>> {
    let mut rules = lexer();
    let mut found = rules.parse_str(source);
    let mut out = Vec::new();
    while let Some(token) = found.next() {
        out.push(token);
    }
    out
}

fn tokens(source: &str) -> Vec<Token> {
    scan(source).into_iter().map(|t| t.unwrap()).collect()
}

fn integer(n: i64) -> Token {
    Token::Literal(Literal::Integer(n))
}

#[test]
fn every_fixed_token_alone() {
    let brackets = [
        Bracket::Left,
        Bracket::Right,
        Bracket::LeftCurly,
        Bracket::RightCurly,
        Bracket::LeftSquare,
        Bracket::RightSquare,
        Bracket::LeftTriangle,
        Bracket::RightTriangle,
    ];
    for b in brackets {
        assert_eq!(vec![Token::Bracket(b)], tokens(&b.to_string()));
    }
    let types = [
        Type::Void,
        Type::Unsigned,
        Type::Integer,
        Type::Hyper,
        Type::Float,
        Type::Double,
        Type::Boolean,
        Type::Quadruple,
        Type::String,
        Type::Opaque,
        Type::Pointer,
        Type::Enum,
        Type::Struct,
        Type::Union,
    ];
    for t in types {
        assert_eq!(vec![Token::Type(t)], tokens(&t.to_string()));
    }
    let keywords = [
        Keyword::Const,
        Keyword::Case,
        Keyword::Switch,
        Keyword::Default,
        Keyword::Typedef,
        Keyword::Program,
        Keyword::Version,
        Keyword::Procedure,
    ];
    for k in keywords {
        assert_eq!(vec![Token::Keyword(k)], tokens(&k.to_string()));
    }
    for s in [Separator::Semicolon, Separator::Colon, Separator::Comma] {
        assert_eq!(vec![Token::Separator(s)], tokens(&s.to_string()));
    }
    assert_eq!(vec![Token::Operator(Operator::Assign)], tokens(&Operator::Assign.to_string()));
}

#[test]
fn how_tokens_are_written() {
    assert_eq!("{", Bracket::LeftCurly.to_string());
    assert_eq!(">", Bracket::RightTriangle.to_string());
    assert_eq!("int", Type::Integer.to_string());
    assert_eq!("*", Type::Pointer.to_string());
    assert_eq!("=", Operator::Assign.to_string());
    assert_eq!(":", Separator::Colon.to_string());
    assert_eq!("typedef", Keyword::Typedef.to_string());
}

#[test]
fn two_tokens_with_space_between() {
    assert_eq!(
        vec![Token::Keyword(Keyword::Const), Token::Identifier("A".to_string())],
        tokens("const \t\n A")
    );
    assert_eq!(vec![Token::Type(Type::Integer), Token::Type(Type::Pointer)], tokens("int *"));
    assert_eq!(vec![integer(1), Token::Separator(Separator::Semicolon)], tokens("1 ;"));
}

#[test]
fn words_that_go_on_are_identifiers() {
    assert_eq!(vec![Token::Identifier("integer_t".to_string())], tokens("integer_t"));
    assert_eq!(vec![Token::Identifier("constant".to_string())], tokens("constant"));
    assert_eq!(vec![Token::Identifier("int_".to_string())], tokens("int_"));
    assert_eq!(vec![Token::Identifier("void2".to_string())], tokens("void2"));
    assert_eq!(
        vec![Token::Type(Type::Integer), Token::Bracket(Bracket::LeftSquare)],
        tokens("int[")
    );
    assert_eq!(
        vec![Token::Type(Type::Pointer), Token::Identifier("next".to_string())],
        tokens("*next")
    );
}

#[test]
fn integers_in_every_radix() {
    assert_eq!(vec![integer(0)], tokens("0"));
    assert_eq!(vec![integer(42)], tokens("42"));
    assert_eq!(vec![integer(-12)], tokens("-12"));
    assert_eq!(vec![integer(31)], tokens("0x1F"));
    assert_eq!(vec![integer(31)], tokens("0X1f"));
    assert_eq!(vec![integer(5)], tokens("0b101"));
    assert_eq!(vec![integer(15)], tokens("0o17"));
    assert_eq!(vec![integer(-255)], tokens("-0xff"));
    assert_eq!(vec![integer(7)], tokens("07"));
    assert_eq!(vec![integer(0x20000001)], tokens("0x20000001"));
    assert_eq!(vec![integer(i64::MAX)], tokens("9223372036854775807"));
    assert_eq!(vec![integer(0), Token::Separator(Separator::Semicolon)], tokens("0;"));
    assert_eq!(vec![integer(1), Token::Bracket(Bracket::RightSquare)], tokens("1]"));
}

#[test]
fn a_number_too_large_is_no_literal() {
    assert_eq!(
        vec![Token::Identifier("9223372036854775808".to_string())],
        tokens("9223372036854775808")
    );
}

#[test]
fn comments_keep_their_text() {
    assert_eq!(vec![Token::Comment(" a * b ".to_string())], tokens("/* a * b */"));
    assert_eq!(vec![Token::Comment(" line".to_string())], tokens("// line"));
    assert_eq!(
        vec![Token::Comment(" line".to_string()), Token::Identifier("x".to_string())],
        tokens("// line\nx")
    );
    assert_eq!(
        vec![Token::Comment("".to_string()), Token::Separator(Separator::Semicolon)],
        tokens("/**/;")
    );
    assert_eq!(
        vec![Token::Comment(" a *".to_string()), Token::Identifier("x".to_string())],
        tokens("/* a **/x")
    );
    assert_eq!(vec![Token::Comment("***".to_string())], tokens("/*****/"));
    assert_eq!(vec![Token::Comment(" a *b ".to_string())], tokens("/* a *b */"));
}

#[test]
fn what_is_no_token() {
    let found = scan("a ? b");
    assert_eq!(3, found.len());
    assert!(matches!(found[0], Ok(Token::Identifier(_))));
    assert!(matches!(found[1], Err(Error::UnknownToken(None))));
    assert!(matches!(found[2], Ok(Token::Identifier(_))));

    let found = scan("/* open");
    assert_eq!(1, found.len());
    assert!(matches!(found[0], Err(Error::UnexpectedEOF)));
}

#[test]
fn bytes_that_are_no_text() {
    let mut rules = lexer();
    let bytes: [u8; 4] = [b'a', b' ', 0xff, b'b'];
    let mut found = rules.parse(&bytes);
    assert_eq!(Token::Identifier("a".to_string()), found.next().unwrap().unwrap());
    assert!(matches!(found.next(), Some(Err(Error::IO(_)))));
}

#[test]
fn text_beyond_ascii() {
    assert_eq!(vec![Token::Identifier("größe".to_string())], tokens("größe"));
    assert_eq!(
        vec![Token::Comment(" Χαίρετε ".to_string())],
        tokens("/* Χαίρετε */")
    );
}

#[test]
fn empty_input_has_no_tokens() {
    assert!(scan("").is_empty());
    assert!(scan("  \n\t ").is_empty());
}

#[test]
fn messages_of_errors() {
    assert_eq!("Broken grammar: <no info>", Error::broken_grammar().message());
    assert_eq!("Broken grammar: two rules", Error::broken_grammar_msg("two rules").message());
    assert_eq!("Broken grammar: x", Error::broken_grammar_string("x".to_string()).message());
    assert_eq!("Unknown token found: <not provided>", Error::unknown_token().message());
    assert_eq!("Unknown token found: ?", Error::unknown_token_str("?").message());
    assert_eq!("Unknown token found: ?", Error::unknown_token_string("?".to_string()).message());
    assert_eq!("Unexpected end of file", Error::unexpected_eof().message());
}

#[test]
fn characters_of_words() {
    assert!(allowed_chars(Char::Char('a')));
    assert!(allowed_chars(Char::Char('_')));
    assert!(allowed_chars(Char::Char('7')));
    assert!(allowed_chars(Char::Char('ß')));
    assert!(!allowed_chars(Char::Char('-')));
    assert!(!allowed_chars(Char::Char(' ')));
    assert!(!allowed_chars(Char::EOF));
}

struct Word;

impl TextMaker<Token> for Word {
    fn made(&self, text: vstd::seq::Seq<char>) -> krpcgen::rpc::token::TokenView {
        krpcgen::rpc::token::TokenView::Identifier(text)
    }

    fn make(&self, text: &str) -> Token {
        Token::Identifier(text.to_string())
    }
}

fn feed<M: Matcher<Token>>(matcher: &mut M, text: &str) -> Vec<State<Token>> {
    let mut out: Vec<State<Token>> = text.chars().map(|c| matcher.check(Char::Char(c))).collect();
    out.push(matcher.check(Char::EOF));
    out
}

fn kinds(states: &[State<Token>]) -> String {
    states
        .iter()
        .map(|s| match s {
            State::Rejected => 'r',
            State::Matching => 'm',
            State::Matched(_) => 'M',
            State::Broken => 'B',
        })
        .collect()
}

#[test]
fn fixed_run_of_characters() {
    let mut matcher =
        CharSequenceMatcher::new("int", Fixed(Token::Type(Type::Integer)), Follow::NoWord);
    assert_eq!("mmmMr", kinds(&feed(&mut matcher, "int ")));
    Matcher::<Token>::reset(&mut matcher);
    assert_eq!("mmmrr", kinds(&feed(&mut matcher, "intx")));
    Matcher::<Token>::reset(&mut matcher);
    assert_eq!("mrrr", kinds(&feed(&mut matcher, "ixt")));
    Matcher::<Token>::reset(&mut matcher);
    assert_eq!("mmr", kinds(&feed(&mut matcher, "in")));
    Matcher::<Token>::reset(&mut matcher);
    let found = feed(&mut matcher, "int");
    assert_eq!("mmmM", kinds(&found));
    assert!(matches!(found[3], State::Matched(Token::Type(Type::Integer))));
}

#[test]
fn run_of_allowed_characters() {
    let mut matcher = AllowedCharMatcher::new(Word, Follow::NoWord);
    let found = feed(&mut matcher, "ab1 ");
    assert_eq!("mmmMr", kinds(&found));
    assert!(matches!(&found[3], State::Matched(Token::Identifier(name)) if name == "ab1"));
    Matcher::<Token>::reset(&mut matcher);
    assert_eq!("rr", kinds(&feed(&mut matcher, " ")));
    Matcher::<Token>::reset(&mut matcher);
    assert_eq!("mM", kinds(&feed(&mut matcher, "a")));
}

#[test]
fn integer_matcher_alone() {
    let mut matcher = IntegerMatcher::new(Number);
    let found = feed(&mut matcher, "-0x1f,");
    assert_eq!("mmmmmMr", kinds(&found));
    assert!(matches!(found[5], State::Matched(Token::Literal(Literal::Integer(-31)))));
    Matcher::<Token>::reset(&mut matcher);
    assert_eq!("mrr", kinds(&feed(&mut matcher, "--")));
    Matcher::<Token>::reset(&mut matcher);
    assert_eq!("rr", kinds(&feed(&mut matcher, "x")));
    Matcher::<Token>::reset(&mut matcher);
    assert_eq!("r", kinds(&feed(&mut matcher, "")));
    Matcher::<Token>::reset(&mut matcher);
    let found = feed(&mut matcher, "0z");
    assert_eq!("mMr", kinds(&found));
    assert!(matches!(found[1], State::Matched(Token::Literal(Literal::Integer(0)))));
    Matcher::<Token>::reset(&mut matcher);
    let found = feed(&mut matcher, "12");
    assert!(matches!(found[2], State::Matched(Token::Literal(Literal::Integer(12)))));
}

#[test]
fn group_of_matchers() {
    let mut group: GroupMatcher<Token, CharSequenceMatcher<Fixed, Follow>> = GroupMatcher::new();
    group.add(CharSequenceMatcher::new("a", Fixed(Token::Identifier("first".to_string())), Follow::Anything));
    group.add(CharSequenceMatcher::new("ab", Fixed(Token::Identifier("second".to_string())), Follow::Anything));
    let found = feed(&mut group, "ab;");
    assert_eq!("mMrr", kinds(&found));
    assert!(matches!(&found[1], State::Matched(Token::Identifier(name)) if name == "first"));
    Matcher::<Token>::reset(&mut group);
    let found = feed(&mut group, "a");
    assert_eq!("mM", kinds(&found));

    let mut twins = GroupMatcher::new_matchers(vec![
        CharSequenceMatcher::new("a", Fixed(Token::Identifier("one".to_string())), Follow::Anything),
        CharSequenceMatcher::new("a", Fixed(Token::Identifier("two".to_string())), Follow::Anything),
    ]);
    assert_eq!("mBr", kinds(&feed(&mut twins, "a;")));
}

#[test]
fn a_group_at_odds_breaks_the_grammar() {
    let twins: GroupMatcher<Token, CharSequenceMatcher<Fixed, Follow>> = GroupMatcher::new_matchers(vec![
        CharSequenceMatcher::new("a", Fixed(Token::Identifier("one".to_string())), Follow::Anything),
        CharSequenceMatcher::new("a", Fixed(Token::Identifier("two".to_string())), Follow::Anything),
    ]);
    let mut found: TokenIterator<Token, GroupMatcher<Token, CharSequenceMatcher<Fixed, Follow>>, Whitespace> =
        TokenIterator {
            matchers: vec![MatcherState::new(twins)],
            skip: Some(Whitespace),
            pending: vec![Ok(';'), Ok('a')],
            prev: None,
        };
    match found.next() {
        Some(Err(Error::BrokenGrammar(Some(msg)))) => assert_eq!("Matchers of one group compete", msg),
        other => panic!("{:?}", other.map(|r| r.map_err(|e| e.message()))),
    }
}

#[test]
fn rules_at_odds_break_the_grammar() {
    let mut found: TokenIterator<Token, CharSequenceMatcher<Fixed, Follow>, Whitespace> = TokenIterator {
        matchers: vec![
            MatcherState::new(CharSequenceMatcher::new(
                "ab",
                Fixed(Token::Identifier("long".to_string())),
                Follow::Anything,
            )),
            MatcherState::new(CharSequenceMatcher::new(
                "a",
                Fixed(Token::Identifier("short".to_string())),
                Follow::Anything,
            )),
        ],
        skip: None,
        pending: vec![Ok('b'), Ok('a')],
        prev: None,
    };
    match found.next() {
        Some(Err(Error::BrokenGrammar(Some(msg)))) => {
            assert_eq!("Unreacheable higher order rule found", msg)
        }
        other => panic!("{:?}", other.map(|r| r.map_err(|e| e.message()))),
    }
}

#[test]
fn sequence_of_matchers() {
    let mut sequence = SequenceMatcher::new_matchers(vec![
        CharSequenceMatcher::new("a", Fixed(Token::Identifier("one".to_string())), Follow::Anything),
        CharSequenceMatcher::new("b", Fixed(Token::Identifier("two".to_string())), Follow::Anything),
    ]);
    let first = sequence.check(Char::Char('a'));
    assert!(matches!(first, State::Matching));
    let second: State<Token> = sequence.check(Char::Char('b'));
    assert!(matches!(&second, State::Matched(Token::Identifier(name)) if name == "one"));
    Matcher::<Token>::reset(&mut sequence);
    let third: State<Token> = sequence.check(Char::Char('b'));
    assert!(matches!(third, State::Matching));
    let fourth: State<Token> = sequence.check(Char::EOF);
    assert!(matches!(&fourth, State::Matched(Token::Identifier(name)) if name == "two"));
    let fifth: State<Token> = sequence.check(Char::Char('a'));
    assert!(matches!(fifth, State::Rejected));
    Matcher::<Token>::reset(&mut sequence);
    let again: State<Token> = sequence.check(Char::Char('a'));
    assert!(matches!(again, State::Matching));

    let mut empty: SequenceMatcher<CharSequenceMatcher<Fixed, Follow>> = SequenceMatcher::new();
    let nothing: State<Token> = empty.check(Char::Char('a'));
    assert!(matches!(nothing, State::Rejected));
    empty.add(CharSequenceMatcher::new("a", Fixed(Token::Identifier("one".to_string())), Follow::Anything));
}

#[test]
fn numbers_as_text() {
    assert_eq!("0", unsigned_text(0));
    assert_eq!("7", unsigned_text(7));
    assert_eq!("10", unsigned_text(10));
    assert_eq!("18446744073709551615", unsigned_text(u64::MAX));
    assert_eq!("-1", signed_text(-1));
    assert_eq!("-9223372036854775808", signed_text(i64::MIN));
    assert_eq!("1024", signed_text(1024));
    assert_eq!("", indent(0));
    assert_eq!("    ", indent(4));
}
