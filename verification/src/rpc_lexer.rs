//! The lexer of the RPC language: its rules in their order, and white
//! space skipped between tokens.

use vstd::prelude::*;
use crate::chars::{char_is_whitespace, is_whitespace};
use crate::lexer::generic::{Char, Lexer, MatchRule, Matcher, Skip, SkipRule, State};
use crate::lexer::generic::matcher::{CharSequenceState, GroupState, IntegerMatcher};
use crate::rpc::token::{Operator, Token, TokenView};
use crate::rpc_lexer::matcher::{
    CommentMatcher, CommentState, CommentType, Fixed, Follow, IdentifierMatcher, IdentifierState,
    Number, WordGroup, WordMatcher, bracket_group, bracket_matcher, comment_matcher,
    identifier_matcher, keyword_group, keyword_matcher, literal_matcher, operator_follow,
    operator_matcher, separator_group, separator_matcher, type_group, type_matcher, word,
};

pub mod laws;
pub mod matcher;

verus! {

/// A matcher of one of the kinds of tokens.
pub enum TokenMatcher {
    Word(WordMatcher),
    Group(WordGroup),
    Literal(IntegerMatcher<Number>),
    Identifier(IdentifierMatcher),
    Comment(CommentMatcher),
}

/// The state of a [`TokenMatcher`].
pub enum TokenMatcherState {
    Word(CharSequenceState<Fixed, Follow>),
    Group(GroupState<CharSequenceState<Fixed, Follow>, TokenView>),
    Literal(IntegerMatcher<Number>),
    Identifier(IdentifierState),
    Comment(CommentState),
}

impl View for TokenMatcher {
    type V = TokenMatcherState;

    open spec fn view(&self) -> TokenMatcherState {
        match self {
            TokenMatcher::Word(m) => TokenMatcherState::Word(m@),
            TokenMatcher::Group(m) => TokenMatcherState::Group(m@),
            TokenMatcher::Literal(m) => TokenMatcherState::Literal(m@),
            TokenMatcher::Identifier(m) => TokenMatcherState::Identifier(m@),
            TokenMatcher::Comment(m) => TokenMatcherState::Comment(m@),
        }
    }
}

impl Matcher<Token> for TokenMatcher {
    open spec fn wf(&self) -> bool {
        match self {
            TokenMatcher::Word(m) => <WordMatcher as Matcher<Token>>::wf(m),
            TokenMatcher::Group(m) => <WordGroup as Matcher<Token>>::wf(m),
            TokenMatcher::Literal(m) => <IntegerMatcher<Number> as Matcher<Token>>::wf(m),
            TokenMatcher::Identifier(m) => <IdentifierMatcher as Matcher<Token>>::wf(m),
            TokenMatcher::Comment(m) => <CommentMatcher as Matcher<Token>>::wf(m),
        }
    }

    open spec fn step(state: TokenMatcherState, c: Char) -> (TokenMatcherState, State<TokenView>) {
        match state {
            TokenMatcherState::Word(s) => {
                let next = <WordMatcher as Matcher<Token>>::step(s, c);
                (TokenMatcherState::Word(next.0), next.1)
            },
            TokenMatcherState::Group(s) => {
                let next = <WordGroup as Matcher<Token>>::step(s, c);
                (TokenMatcherState::Group(next.0), next.1)
            },
            TokenMatcherState::Literal(s) => {
                let next = <IntegerMatcher<Number> as Matcher<Token>>::step(s, c);
                (TokenMatcherState::Literal(next.0), next.1)
            },
            TokenMatcherState::Identifier(s) => {
                let next = <IdentifierMatcher as Matcher<Token>>::step(s, c);
                (TokenMatcherState::Identifier(next.0), next.1)
            },
            TokenMatcherState::Comment(s) => {
                let next = <CommentMatcher as Matcher<Token>>::step(s, c);
                (TokenMatcherState::Comment(next.0), next.1)
            },
        }
    }

    open spec fn cleared(state: TokenMatcherState) -> TokenMatcherState {
        match state {
            TokenMatcherState::Word(s) => TokenMatcherState::Word(
                <WordMatcher as Matcher<Token>>::cleared(s),
            ),
            TokenMatcherState::Group(s) => TokenMatcherState::Group(
                <WordGroup as Matcher<Token>>::cleared(s),
            ),
            TokenMatcherState::Literal(s) => TokenMatcherState::Literal(
                <IntegerMatcher<Number> as Matcher<Token>>::cleared(s),
            ),
            TokenMatcherState::Identifier(s) => TokenMatcherState::Identifier(
                <IdentifierMatcher as Matcher<Token>>::cleared(s),
            ),
            TokenMatcherState::Comment(s) => TokenMatcherState::Comment(
                <CommentMatcher as Matcher<Token>>::cleared(s),
            ),
        }
    }

    fn check(&mut self, c: Char) -> (answer: State<Token>) {
        match self {
            TokenMatcher::Word(m) => m.check(c),
            TokenMatcher::Group(m) => m.check(c),
            TokenMatcher::Literal(m) => m.check(c),
            TokenMatcher::Identifier(m) => m.check(c),
            TokenMatcher::Comment(m) => m.check(c),
        }
    }

    fn reset(&mut self) {
        match self {
            TokenMatcher::Word(m) => Matcher::<Token>::reset(m),
            TokenMatcher::Group(m) => Matcher::<Token>::reset(m),
            TokenMatcher::Literal(m) => Matcher::<Token>::reset(m),
            TokenMatcher::Identifier(m) => Matcher::<Token>::reset(m),
            TokenMatcher::Comment(m) => Matcher::<Token>::reset(m),
        }
    }
}

/// The rules of the language, one for each kind of token.
#[derive(Clone, Copy, PartialEq, Eq, Structural)]
pub enum TokenRule {
    Separator,
    Bracket,
    Literal,
    Keyword,
    Type,
    Operator,
    Identifier,
    Comment,
}

impl MatchRule<Token> for TokenRule {
    type Output = TokenMatcher;

    open spec fn fresh(&self) -> TokenMatcherState {
        match self {
            TokenRule::Separator => TokenMatcherState::Group(separator_group()),
            TokenRule::Bracket => TokenMatcherState::Group(bracket_group()),
            TokenRule::Literal => TokenMatcherState::Literal(IntegerMatcher::new_spec(Number)),
            TokenRule::Keyword => TokenMatcherState::Group(keyword_group()),
            TokenRule::Type => TokenMatcherState::Group(type_group()),
            TokenRule::Operator => TokenMatcherState::Word(
                word(
                    Operator::Assign.text(),
                    Token::Operator(Operator::Assign),
                    operator_follow(Operator::Assign),
                ),
            ),
            TokenRule::Identifier => TokenMatcherState::Identifier(
                IdentifierState { current: Seq::empty(), cooked: false },
            ),
            TokenRule::Comment => TokenMatcherState::Comment(
                CommentState { cooked: false, content: Seq::empty(), ctype: CommentType::Outside },
            ),
        }
    }

    fn get(&mut self) -> (matcher: TokenMatcher) {
        match self {
            TokenRule::Separator => TokenMatcher::Group(separator_matcher()),
            TokenRule::Bracket => TokenMatcher::Group(bracket_matcher()),
            TokenRule::Literal => TokenMatcher::Literal(literal_matcher()),
            TokenRule::Keyword => TokenMatcher::Group(keyword_matcher()),
            TokenRule::Type => TokenMatcher::Group(type_matcher()),
            TokenRule::Operator => TokenMatcher::Word(operator_matcher()),
            TokenRule::Identifier => TokenMatcher::Identifier(identifier_matcher()),
            TokenRule::Comment => TokenMatcher::Comment(comment_matcher()),
        }
    }
}

/// The skip of white space, and the rule that makes it.
#[derive(Clone, Copy, PartialEq, Eq, Structural)]
pub struct Whitespace;

impl Skip for Whitespace {
    open spec fn skips(&self, c: char) -> bool {
        is_whitespace(c)
    }

    fn is_skipping(&mut self, c: char) -> (skipping: bool) {
        char_is_whitespace(c)
    }
}

impl SkipRule for Whitespace {
    type Output = Whitespace;

    open spec fn skips(&self, c: char) -> bool {
        is_whitespace(c)
    }

    fn get(&mut self) -> (skip: Whitespace) {
        Whitespace
    }
}

/// The rules of the language in their order: on a tie the earlier rule
/// gives the token, so that a keyword is no identifier.
pub open spec fn rules() -> Seq<TokenRule> {
    Seq::empty().push(TokenRule::Separator).push(TokenRule::Bracket).push(TokenRule::Literal).push(
        TokenRule::Keyword,
    ).push(TokenRule::Type).push(TokenRule::Operator).push(TokenRule::Identifier).push(
        TokenRule::Comment,
    )
}

pub fn lexer() -> (lexer: Lexer<Token, TokenRule, Whitespace>)
    ensures
        lexer.rules@ == rules(),
        lexer.skip == Some(Whitespace),
{
    let mut out = Lexer::new();
    out.with_skip(Whitespace);
    out.push_back(TokenRule::Separator);
    out.push_back(TokenRule::Bracket);
    out.push_back(TokenRule::Literal);
    out.push_back(TokenRule::Keyword);
    out.push_back(TokenRule::Type);
    out.push_back(TokenRule::Operator);
    out.push_back(TokenRule::Identifier);
    out.push_back(TokenRule::Comment);
    out
}

} // verus!
