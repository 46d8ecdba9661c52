use krpcgen::lexer::generic::{Char, Lexer, MatchRule, Matcher, Skip, SkipRule, State};
use krpcgen::lexer::Error;
use vstd::prelude::View;

#[derive(Clone, Debug, PartialEq)]
enum Token {
    Keyword(String),
    Identifier(String),
    Operator(String),
}

impl View for Token {
    type V = Token;

    fn view(&self) -> Token {
        self.clone()
    }
}

enum Machine {
    Identifier(String),
    Operator(String),
    Keyword(usize),
}

impl View for Machine {
    type V = ();

    fn view(&self) {}
}

impl Matcher<Token> for Machine {
    fn wf(&self) -> bool {
        true
    }

    fn step(_: (), _: Char) -> ((), State<Token>) {
        ((), State::Rejected)
    }

    fn cleared(_: ()) {}

    fn check(&mut self, c: Char) -> State<Token> {
        match self {
            Machine::Identifier(mem) => match c {
                Char::Char(c) => {
                    if char::is_alphabetic(c) {
                        *mem += &String::from(c);
                        State::Matching
                    } else if "" == mem {
                        State::Rejected
                    } else {
                        let out = State::Matched(Token::Identifier(mem.clone()));
                        mem.clear();
                        out
                    }
                }
                Char::EOF => {
                    if "" == mem {
                        State::Rejected
                    } else {
                        let out = State::Matched(Token::Identifier(mem.clone()));
                        mem.clear();
                        out
                    }
                }
            },
            Machine::Operator(mem) => match c {
                Char::Char(c) => {
                    if "" != mem && '=' != c && '+' != c {
                        let out = State::Matched(Token::Operator(mem.clone()));
                        mem.clear();
                        out
                    } else if "" == mem && ('=' == c || '+' == c) {
                        *mem = String::from(c);
                        State::Matching
                    } else {
                        State::Rejected
                    }
                }
                Char::EOF => {
                    if "" != mem {
                        let out = State::Matched(Token::Operator(mem.clone()));
                        mem.clear();
                        out
                    } else {
                        State::Rejected
                    }
                }
            },
            Machine::Keyword(i) => {
                let rf = ['l', 'e', 't'];
                if 3 == *i {
                    *i = 0;
                    if let Char::Char(c) = c {
                        if char::is_alphabetic(c) {
                            State::Rejected
                        } else {
                            State::Matched(Token::Keyword("let".to_owned()))
                        }
                    } else {
                        State::Matched(Token::Keyword("let".to_owned()))
                    }
                } else if let Char::Char(c) = c {
                    if rf[*i] == c {
                        *i += 1;
                        State::Matching
                    } else {
                        State::Rejected
                    }
                } else {
                    *i = 0;
                    State::Rejected
                }
            }
        }
    }

    fn reset(&mut self) {}
}

enum Rule {
    Identifier,
    Operator,
    Keyword,
}

impl MatchRule<Token> for Rule {
    type Output = Machine;

    fn fresh(&self) {}

    fn get(&mut self) -> Machine {
        match self {
            Rule::Identifier => Machine::Identifier(String::new()),
            Rule::Operator => Machine::Operator(String::new()),
            Rule::Keyword => Machine::Keyword(0),
        }
    }
}

struct Blank;

impl Skip for Blank {
    fn skips(&self, c: char) -> bool {
        char::is_whitespace(c)
    }

    fn is_skipping(&mut self, c: char) -> bool {
        char::is_whitespace(c)
    }
}

impl SkipRule for Blank {
    type Output = Blank;

    fn skips(&self, c: char) -> bool {
        char::is_whitespace(c)
    }

    fn get(&mut self) -> Blank {
        Blank
    }
}

fn lexer() -> Lexer<Token, Rule, Blank> {
    let mut l: Lexer<Token, Rule, Blank> = Lexer::new();
    l.with_skip(Blank);
    l.push_back(Rule::Identifier);
    l.push_back(Rule::Operator);
    l
}

fn lexer_with_kw() -> Lexer<Token, Rule, Blank> {
    let mut l = lexer();
    l.push_front(Rule::Keyword);
    l
}

#[test]
fn simple_test() {
    let mut l = lexer();

    let mut res = l.parse_str("a = b + c");

    assert_eq!(Token::Identifier("a".to_owned()), res.next().unwrap().unwrap());
    assert_eq!(Token::Operator("=".to_owned()), res.next().unwrap().unwrap());
    assert_eq!(Token::Identifier("b".to_owned()), res.next().unwrap().unwrap());
    assert_eq!(Token::Operator("+".to_owned()), res.next().unwrap().unwrap());
    assert_eq!(Token::Identifier("c".to_owned()), res.next().unwrap().unwrap());
    assert!(res.next().is_none());
}

#[test]
fn longer_ids() {
    let mut l = lexer();

    let mut res = l.parse_str("sum = first + second");

    assert_eq!(Token::Identifier("sum".to_owned()), res.next().unwrap().unwrap());
    assert_eq!(Token::Operator("=".to_owned()), res.next().unwrap().unwrap());
    assert_eq!(Token::Identifier("first".to_owned()), res.next().unwrap().unwrap());
    assert_eq!(Token::Operator("+".to_owned()), res.next().unwrap().unwrap());
    assert_eq!(Token::Identifier("second".to_owned()), res.next().unwrap().unwrap());
    assert!(res.next().is_none());
}

#[test]
fn more_skips() {
    let mut l = lexer();

    let mut res = l.parse_str("   sum  =first+ second   ");

    assert_eq!(Token::Identifier("sum".to_owned()), res.next().unwrap().unwrap());
    assert_eq!(Token::Operator("=".to_owned()), res.next().unwrap().unwrap());
    assert_eq!(Token::Identifier("first".to_owned()), res.next().unwrap().unwrap());
    assert_eq!(Token::Operator("+".to_owned()), res.next().unwrap().unwrap());
    assert_eq!(Token::Identifier("second".to_owned()), res.next().unwrap().unwrap());
    assert!(res.next().is_none());
}

#[test]
fn with_kerword() {
    let mut l = lexer_with_kw();

    let mut res = l.parse_str("let lets = first + second");

    assert_eq!(Token::Keyword("let".to_owned()), res.next().unwrap().unwrap());
    assert_eq!(Token::Identifier("lets".to_owned()), res.next().unwrap().unwrap());
    assert_eq!(Token::Operator("=".to_owned()), res.next().unwrap().unwrap());
    assert_eq!(Token::Identifier("first".to_owned()), res.next().unwrap().unwrap());
    assert_eq!(Token::Operator("+".to_owned()), res.next().unwrap().unwrap());
    assert_eq!(Token::Identifier("second".to_owned()), res.next().unwrap().unwrap());
    assert!(res.next().is_none());
}

#[test]
fn unknown_token() {
    let mut l = lexer_with_kw();

    let mut res = l.parse_str("let aboba? = first + second");

    assert_eq!(Token::Keyword("let".to_owned()), res.next().unwrap().unwrap());
    assert_eq!(Token::Identifier("aboba".to_owned()), res.next().unwrap().unwrap());
    assert!(match res.next().unwrap().unwrap_err() {
        Error::UnknownToken(None) => true,
        _ => false,
    });
    assert_eq!(Token::Operator("=".to_owned()), res.next().unwrap().unwrap());
    assert_eq!(Token::Identifier("first".to_owned()), res.next().unwrap().unwrap());
    assert_eq!(Token::Operator("+".to_owned()), res.next().unwrap().unwrap());
    assert_eq!(Token::Identifier("second".to_owned()), res.next().unwrap().unwrap());
    assert!(res.next().is_none());
}
