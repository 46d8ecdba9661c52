//! The matchers of the tokens of the RPC language.

use vstd::prelude::*;
use crate::chars::{char_is_alphabetic, char_is_alphanumeric, is_alphabetic, is_alphanumeric};
use crate::lexer::generic::{Char, Matcher, State};
use crate::lexer::generic::matcher::{
    CharClass, CharSequenceMatcher, CharSequenceState, GroupMatcher, GroupState, IntegerMatcher,
    Maker, NumberMaker,
};
use crate::rpc::token::{Bracket, Keyword, Literal, Operator, Separator, Token, TokenView, Type};
use crate::text::push_char;

verus! {

/// Whether a character can go on a word: a letter, a decimal digit or an
/// underscore. The end of the input cannot.
pub open spec fn is_word(c: Char) -> bool {
    match c {
        Char::EOF => false,
        Char::Char(c) => is_alphabetic(c) || c == '_' || ('0' <= c && c <= '9'),
    }
}

pub fn allowed_chars(c: Char) -> (allowed: bool)
    ensures
        allowed == is_word(c),
{
    match c {
        Char::EOF => false,
        Char::Char(c) => char_is_alphabetic(c) || '_' == c || ('0' <= c && c <= '9'),
    }
}

/// What may not follow a fixed word for it to be a token.
#[derive(Clone, Copy, PartialEq, Eq, Structural)]
pub enum Follow {
    /// Anything may follow.
    Anything,
    /// No character of a word may follow.
    NoWord,
}

impl CharClass for Follow {
    open spec fn holds(&self, c: Char) -> bool {
        match self {
            Follow::Anything => false,
            Follow::NoWord => is_word(c),
        }
    }

    fn test(&self, c: Char) -> (held: bool) {
        match self {
            Follow::Anything => false,
            Follow::NoWord => allowed_chars(c),
        }
    }
}

/// The maker of one fixed token.
pub struct Fixed(pub Token);

impl Maker<Token> for Fixed {
    open spec fn made(&self) -> TokenView {
        self.0@
    }

    fn make(&self) -> (token: Token) {
        self.0.clone()
    }
}

/// The maker of integer literals.
pub struct Number;

impl NumberMaker<Token> for Number {
    open spec fn made(&self, n: i64) -> TokenView {
        TokenView::Literal(Literal::Integer(n))
    }

    fn make(&self, n: i64) -> (token: Token) {
        Token::Literal(Literal::Integer(n))
    }
}

/// A matcher of one fixed word.
pub type WordMatcher = CharSequenceMatcher<Fixed, Follow>;

/// A matcher of one of several fixed words.
pub type WordGroup = GroupMatcher<Token, WordMatcher>;

/// The state of a fresh matcher of a fixed word.
pub open spec fn word(text: Seq<char>, token: Token, follow: Follow) -> CharSequenceState<Fixed, Follow> {
    CharSequenceState { chars: text, last: 0, resf: Fixed(token), allowed: follow, cooked: false }
}

/// The slot of a fresh matcher of a fixed word in a group.
pub open spec fn slot(text: Seq<char>, token: Token, follow: Follow) -> (
    CharSequenceState<Fixed, Follow>,
    State<TokenView>,
) {
    (word(text, token, follow), State::Matching)
}

/// What may not follow a bracket.
pub open spec fn bracket_follow(value: Bracket) -> Follow {
    Follow::Anything
}

fn sbracket_matcher(value: Bracket) -> (matcher: WordMatcher)
    ensures
        matcher@ == word(value.text(), Token::Bracket(value), bracket_follow(value)),
        matcher.last == 0,
{
    CharSequenceMatcher::new(value.to_string().as_str(), Fixed(Token::Bracket(value)), Follow::Anything)
}

/// The state of a fresh matcher of a bracket.
pub open spec fn bracket_group() -> GroupState<CharSequenceState<Fixed, Follow>, TokenView> {
    GroupState {
        slots: Seq::empty()
            .push(slot(Bracket::Left.text(), Token::Bracket(Bracket::Left), bracket_follow(Bracket::Left)))
            .push(slot(Bracket::Right.text(), Token::Bracket(Bracket::Right), bracket_follow(Bracket::Right)))
            .push(slot(Bracket::LeftCurly.text(), Token::Bracket(Bracket::LeftCurly), bracket_follow(Bracket::LeftCurly)))
            .push(slot(Bracket::RightCurly.text(), Token::Bracket(Bracket::RightCurly), bracket_follow(Bracket::RightCurly)))
            .push(slot(Bracket::LeftSquare.text(), Token::Bracket(Bracket::LeftSquare), bracket_follow(Bracket::LeftSquare)))
            .push(slot(Bracket::RightSquare.text(), Token::Bracket(Bracket::RightSquare), bracket_follow(Bracket::RightSquare)))
            .push(slot(Bracket::LeftTriangle.text(), Token::Bracket(Bracket::LeftTriangle), bracket_follow(Bracket::LeftTriangle)))
            .push(slot(Bracket::RightTriangle.text(), Token::Bracket(Bracket::RightTriangle), bracket_follow(Bracket::RightTriangle))),
        cooked: false,
    }
}

pub fn bracket_matcher() -> (matcher: WordGroup)
    ensures
        matcher.wf(),
        matcher@ == bracket_group(),
{
    let mut group = GroupMatcher::new();
    group.add(sbracket_matcher(Bracket::Left));
    group.add(sbracket_matcher(Bracket::Right));
    group.add(sbracket_matcher(Bracket::LeftCurly));
    group.add(sbracket_matcher(Bracket::RightCurly));
    group.add(sbracket_matcher(Bracket::LeftSquare));
    group.add(sbracket_matcher(Bracket::RightSquare));
    group.add(sbracket_matcher(Bracket::LeftTriangle));
    group.add(sbracket_matcher(Bracket::RightTriangle));
    assert(group@.slots =~= bracket_group().slots);
    group
}

/// What may not follow the word of a type.
pub open spec fn type_follow(value: Type) -> Follow {
    match value {
        Type::Pointer => Follow::Anything,
        _ => Follow::NoWord,
    }
}

fn stype_matcher(value: Type) -> (matcher: WordMatcher)
    ensures
        matcher@ == word(value.text(), Token::Type(value), type_follow(value)),
        matcher.last == 0,
{
    CharSequenceMatcher::new(value.to_string().as_str(), Fixed(Token::Type(value)), match value {
            Type::Pointer => Follow::Anything,
            _ => Follow::NoWord,
        })
}

/// The state of a fresh matcher of the word of a type.
pub open spec fn type_group() -> GroupState<CharSequenceState<Fixed, Follow>, TokenView> {
    GroupState {
        slots: Seq::empty()
            .push(slot(Type::Void.text(), Token::Type(Type::Void), type_follow(Type::Void)))
            .push(slot(Type::Unsigned.text(), Token::Type(Type::Unsigned), type_follow(Type::Unsigned)))
            .push(slot(Type::Integer.text(), Token::Type(Type::Integer), type_follow(Type::Integer)))
            .push(slot(Type::Hyper.text(), Token::Type(Type::Hyper), type_follow(Type::Hyper)))
            .push(slot(Type::Float.text(), Token::Type(Type::Float), type_follow(Type::Float)))
            .push(slot(Type::Double.text(), Token::Type(Type::Double), type_follow(Type::Double)))
            .push(slot(Type::Boolean.text(), Token::Type(Type::Boolean), type_follow(Type::Boolean)))
            .push(slot(Type::Quadruple.text(), Token::Type(Type::Quadruple), type_follow(Type::Quadruple)))
            .push(slot(Type::String.text(), Token::Type(Type::String), type_follow(Type::String)))
            .push(slot(Type::Opaque.text(), Token::Type(Type::Opaque), type_follow(Type::Opaque)))
            .push(slot(Type::Pointer.text(), Token::Type(Type::Pointer), type_follow(Type::Pointer)))
            .push(slot(Type::Enum.text(), Token::Type(Type::Enum), type_follow(Type::Enum)))
            .push(slot(Type::Struct.text(), Token::Type(Type::Struct), type_follow(Type::Struct)))
            .push(slot(Type::Union.text(), Token::Type(Type::Union), type_follow(Type::Union))),
        cooked: false,
    }
}

pub fn type_matcher() -> (matcher: WordGroup)
    ensures
        matcher.wf(),
        matcher@ == type_group(),
{
    let mut group = GroupMatcher::new();
    group.add(stype_matcher(Type::Void));
    group.add(stype_matcher(Type::Unsigned));
    group.add(stype_matcher(Type::Integer));
    group.add(stype_matcher(Type::Hyper));
    group.add(stype_matcher(Type::Float));
    group.add(stype_matcher(Type::Double));
    group.add(stype_matcher(Type::Boolean));
    group.add(stype_matcher(Type::Quadruple));
    group.add(stype_matcher(Type::String));
    group.add(stype_matcher(Type::Opaque));
    group.add(stype_matcher(Type::Pointer));
    group.add(stype_matcher(Type::Enum));
    group.add(stype_matcher(Type::Struct));
    group.add(stype_matcher(Type::Union));
    assert(group@.slots =~= type_group().slots);
    group
}

/// What may not follow an operator.
pub open spec fn operator_follow(value: Operator) -> Follow {
    Follow::Anything
}

fn soperator_matcher(value: Operator) -> (matcher: WordMatcher)
    ensures
        matcher@ == word(value.text(), Token::Operator(value), operator_follow(value)),
        matcher.last == 0,
{
    CharSequenceMatcher::new(value.to_string().as_str(), Fixed(Token::Operator(value)), Follow::Anything)
}

pub fn operator_matcher() -> (matcher: WordMatcher)
    ensures
        matcher@ == word(Operator::Assign.text(), Token::Operator(Operator::Assign), operator_follow(Operator::Assign)),
        matcher.last == 0,
{
    soperator_matcher(Operator::Assign)
}

/// What may not follow a separator.
pub open spec fn separator_follow(value: Separator) -> Follow {
    Follow::Anything
}

fn sseparator_matcher(value: Separator) -> (matcher: WordMatcher)
    ensures
        matcher@ == word(value.text(), Token::Separator(value), separator_follow(value)),
        matcher.last == 0,
{
    CharSequenceMatcher::new(value.to_string().as_str(), Fixed(Token::Separator(value)), Follow::Anything)
}

/// The state of a fresh matcher of a separator.
pub open spec fn separator_group() -> GroupState<CharSequenceState<Fixed, Follow>, TokenView> {
    GroupState {
        slots: Seq::empty()
            .push(slot(Separator::Semicolon.text(), Token::Separator(Separator::Semicolon), separator_follow(Separator::Semicolon)))
            .push(slot(Separator::Colon.text(), Token::Separator(Separator::Colon), separator_follow(Separator::Colon)))
            .push(slot(Separator::Comma.text(), Token::Separator(Separator::Comma), separator_follow(Separator::Comma))),
        cooked: false,
    }
}

pub fn separator_matcher() -> (matcher: WordGroup)
    ensures
        matcher.wf(),
        matcher@ == separator_group(),
{
    let mut group = GroupMatcher::new();
    group.add(sseparator_matcher(Separator::Semicolon));
    group.add(sseparator_matcher(Separator::Colon));
    group.add(sseparator_matcher(Separator::Comma));
    assert(group@.slots =~= separator_group().slots);
    group
}

/// What may not follow a keyword.
pub open spec fn keyword_follow(value: Keyword) -> Follow {
    Follow::NoWord
}

fn skeyword_matcher(value: Keyword) -> (matcher: WordMatcher)
    ensures
        matcher@ == word(value.text(), Token::Keyword(value), keyword_follow(value)),
        matcher.last == 0,
{
    CharSequenceMatcher::new(value.to_string().as_str(), Fixed(Token::Keyword(value)), Follow::NoWord)
}

/// The state of a fresh matcher of a keyword.
pub open spec fn keyword_group() -> GroupState<CharSequenceState<Fixed, Follow>, TokenView> {
    GroupState {
        slots: Seq::empty()
            .push(slot(Keyword::Const.text(), Token::Keyword(Keyword::Const), keyword_follow(Keyword::Const)))
            .push(slot(Keyword::Case.text(), Token::Keyword(Keyword::Case), keyword_follow(Keyword::Case)))
            .push(slot(Keyword::Switch.text(), Token::Keyword(Keyword::Switch), keyword_follow(Keyword::Switch)))
            .push(slot(Keyword::Default.text(), Token::Keyword(Keyword::Default), keyword_follow(Keyword::Default)))
            .push(slot(Keyword::Typedef.text(), Token::Keyword(Keyword::Typedef), keyword_follow(Keyword::Typedef)))
            .push(slot(Keyword::Program.text(), Token::Keyword(Keyword::Program), keyword_follow(Keyword::Program)))
            .push(slot(Keyword::Version.text(), Token::Keyword(Keyword::Version), keyword_follow(Keyword::Version)))
            .push(slot(Keyword::Procedure.text(), Token::Keyword(Keyword::Procedure), keyword_follow(Keyword::Procedure))),
        cooked: false,
    }
}

pub fn keyword_matcher() -> (matcher: WordGroup)
    ensures
        matcher.wf(),
        matcher@ == keyword_group(),
{
    let mut group = GroupMatcher::new();
    group.add(skeyword_matcher(Keyword::Const));
    group.add(skeyword_matcher(Keyword::Case));
    group.add(skeyword_matcher(Keyword::Switch));
    group.add(skeyword_matcher(Keyword::Default));
    group.add(skeyword_matcher(Keyword::Typedef));
    group.add(skeyword_matcher(Keyword::Program));
    group.add(skeyword_matcher(Keyword::Version));
    group.add(skeyword_matcher(Keyword::Procedure));
    assert(group@.slots =~= keyword_group().slots);
    group
}

pub fn literal_matcher() -> (matcher: IntegerMatcher<Number>)
    ensures
        matcher == IntegerMatcher::new_spec(Number),
{
    IntegerMatcher::new(Number)
}

/// Matches an identifier: a letter or a digit, then characters of a word.
pub struct IdentifierMatcher {
    pub current: String,
    pub cooked: bool,
}

/// The state of an [`IdentifierMatcher`].
pub struct IdentifierState {
    pub current: Seq<char>,
    pub cooked: bool,
}

impl View for IdentifierMatcher {
    type V = IdentifierState;

    open spec fn view(&self) -> IdentifierState {
        IdentifierState { current: self.current@, cooked: self.cooked }
    }
}

impl IdentifierMatcher {
    pub fn new() -> (matcher: Self)
        ensures
            matcher@ == (IdentifierState { current: Seq::empty(), cooked: false }),
    {
        IdentifierMatcher { current: String::new(), cooked: false }
    }
}

impl Matcher<Token> for IdentifierMatcher {
    open spec fn wf(&self) -> bool {
        true
    }

    /// The first character must be a letter or a digit; characters of a
    /// word are gathered behind it, and the first other character, or the
    /// end of the input, ends the identifier.
    open spec fn step(state: IdentifierState, c: Char) -> (IdentifierState, State<TokenView>) {
        if state.cooked {
            (state, State::Rejected)
        } else {
            match c {
                Char::EOF => if state.current.len() == 0 {
                    (IdentifierState { cooked: true, ..state }, State::Rejected)
                } else {
                    (
                        IdentifierState { cooked: true, ..state },
                        State::Matched(TokenView::Identifier(state.current)),
                    )
                },
                Char::Char(ch) => if state.current.len() == 0 {
                    if !is_alphanumeric(ch) {
                        (IdentifierState { cooked: true, ..state }, State::Rejected)
                    } else {
                        (IdentifierState { current: state.current.push(ch), ..state }, State::Matching)
                    }
                } else if is_word(c) {
                    (IdentifierState { current: state.current.push(ch), ..state }, State::Matching)
                } else {
                    (
                        IdentifierState { cooked: true, ..state },
                        State::Matched(TokenView::Identifier(state.current)),
                    )
                },
            }
        }
    }

    open spec fn cleared(state: IdentifierState) -> IdentifierState {
        IdentifierState { current: Seq::empty(), cooked: false }
    }

    fn check(&mut self, c: Char) -> (answer: State<Token>) {
        if self.cooked {
            return State::Rejected;
        }
        let empty = self.current.as_str().unicode_len() == 0;
        let res = match c {
            Char::EOF => {
                if empty {
                    State::Rejected
                } else {
                    State::Matched(Token::Identifier(self.current.clone()))
                }
            },
            Char::Char(ch) => {
                if empty {
                    if !char_is_alphanumeric(ch) {
                        State::Rejected
                    } else {
                        push_char(&mut self.current, ch);
                        State::Matching
                    }
                } else if allowed_chars(c) {
                    push_char(&mut self.current, ch);
                    State::Matching
                } else {
                    State::Matched(Token::Identifier(self.current.clone()))
                }
            },
        };
        match res {
            State::Matching => {},
            _ => {
                self.cooked = true;
            },
        }
        res
    }

    fn reset(&mut self) {
        self.current = String::new();
        self.cooked = false;
    }
}

/// Where a comment matcher stands.
#[derive(Clone, Copy, PartialEq, Eq, Structural)]
pub enum CommentType {
    /// Before the comment.
    Outside,
    /// Behind a first `/`.
    Pending,
    /// In a block comment.
    Block,
    /// In a block comment, behind a `*`.
    PendingBlockEnd,
    /// In a line comment.
    Line,
    /// Behind the comment.
    Finished,
}

/// Matches a comment: a block from `/*` to `*/`, or a line from `//` to
/// its end. The token holds what stands between.
pub struct CommentMatcher {
    pub cooked: bool,
    pub content: String,
    pub ctype: CommentType,
}

/// The state of a [`CommentMatcher`].
pub struct CommentState {
    pub cooked: bool,
    pub content: Seq<char>,
    pub ctype: CommentType,
}

impl View for CommentMatcher {
    type V = CommentState;

    open spec fn view(&self) -> CommentState {
        CommentState { cooked: self.cooked, content: self.content@, ctype: self.ctype }
    }
}

impl CommentMatcher {
    pub fn new() -> (matcher: Self)
        ensures
            matcher@ == (CommentState {
                cooked: false,
                content: Seq::empty(),
                ctype: CommentType::Outside,
            }),
    {
        CommentMatcher { cooked: false, content: String::new(), ctype: CommentType::Outside }
    }
}

/// The state of a comment matcher that has given its answer.
pub open spec fn comment_done(state: CommentState) -> CommentState {
    CommentState { cooked: true, ..state }
}

impl Matcher<Token> for CommentMatcher {
    open spec fn wf(&self) -> bool {
        true
    }

    /// Behind the comment any character, or the end of the input, gives
    /// the token. A line comment ends with the line or with the input; a
    /// block comment ends with the first `*/`, and a `*` that no `/`
    /// follows belongs to the comment.
    open spec fn step(state: CommentState, c: Char) -> (CommentState, State<TokenView>) {
        if state.cooked {
            (state, State::Rejected)
        } else if state.ctype == CommentType::Finished {
            (comment_done(state), State::Matched(TokenView::Comment(state.content)))
        } else {
            match c {
                Char::EOF => if state.ctype == CommentType::Line {
                    (comment_done(state), State::Matched(TokenView::Comment(state.content)))
                } else {
                    (comment_done(state), State::Rejected)
                },
                Char::Char(ch) => match state.ctype {
                    CommentType::Line => if ch == '\r' || ch == '\n' {
                        (CommentState { ctype: CommentType::Finished, ..state }, State::Matching)
                    } else {
                        (CommentState { content: state.content.push(ch), ..state }, State::Matching)
                    },
                    CommentType::Outside => if ch == '/' {
                        (CommentState { ctype: CommentType::Pending, ..state }, State::Matching)
                    } else {
                        (comment_done(state), State::Rejected)
                    },
                    CommentType::Pending => if ch == '/' {
                        (CommentState { ctype: CommentType::Line, ..state }, State::Matching)
                    } else if ch == '*' {
                        (CommentState { ctype: CommentType::Block, ..state }, State::Matching)
                    } else {
                        (comment_done(state), State::Rejected)
                    },
                    CommentType::Block => if ch == '*' {
                        (CommentState { ctype: CommentType::PendingBlockEnd, ..state }, State::Matching)
                    } else {
                        (CommentState { content: state.content.push(ch), ..state }, State::Matching)
                    },
                    CommentType::PendingBlockEnd => if ch == '/' {
                        (CommentState { ctype: CommentType::Finished, ..state }, State::Matching)
                    } else if ch == '*' {
                        (CommentState { content: state.content.push('*'), ..state }, State::Matching)
                    } else {
                        (
                            CommentState {
                                content: state.content.push('*').push(ch),
                                ctype: CommentType::Block,
                                ..state
                            },
                            State::Matching,
                        )
                    },
                    CommentType::Finished => (state, State::Rejected),
                },
            }
        }
    }

    open spec fn cleared(state: CommentState) -> CommentState {
        CommentState { cooked: false, content: Seq::empty(), ctype: CommentType::Outside }
    }

    fn check(&mut self, c: Char) -> (answer: State<Token>) {
        if self.cooked {
            return State::Rejected;
        }
        let res = match self.ctype {
            CommentType::Finished => State::Matched(Token::Comment(self.content.clone())),
            _ => match c {
                Char::EOF => match self.ctype {
                    CommentType::Line => State::Matched(Token::Comment(self.content.clone())),
                    _ => State::Rejected,
                },
                Char::Char(ch) => match self.ctype {
                    CommentType::Line => {
                        if ch == '\r' || ch == '\n' {
                            self.ctype = CommentType::Finished;
                        } else {
                            push_char(&mut self.content, ch);
                        }
                        State::Matching
                    },
                    CommentType::Outside => {
                        if ch == '/' {
                            self.ctype = CommentType::Pending;
                            State::Matching
                        } else {
                            State::Rejected
                        }
                    },
                    CommentType::Pending => {
                        if ch == '/' {
                            self.ctype = CommentType::Line;
                            State::Matching
                        } else if ch == '*' {
                            self.ctype = CommentType::Block;
                            State::Matching
                        } else {
                            State::Rejected
                        }
                    },
                    CommentType::Block => {
                        if ch == '*' {
                            self.ctype = CommentType::PendingBlockEnd;
                        } else {
                            push_char(&mut self.content, ch);
                        }
                        State::Matching
                    },
                    CommentType::PendingBlockEnd => {
                        if ch == '/' {
                            self.ctype = CommentType::Finished;
                        } else if ch == '*' {
                            push_char(&mut self.content, '*');
                        } else {
                            push_char(&mut self.content, '*');
                            push_char(&mut self.content, ch);
                            self.ctype = CommentType::Block;
                        }
                        State::Matching
                    },
                    CommentType::Finished => State::Rejected,
                },
            },
        };
        match res {
            State::Matching => {},
            _ => {
                self.cooked = true;
            },
        }
        res
    }

    fn reset(&mut self) {
        self.cooked = false;
        self.content = String::new();
        self.ctype = CommentType::Outside;
    }
}

pub fn comment_matcher() -> (matcher: CommentMatcher)
    ensures
        matcher@ == (CommentState { cooked: false, content: Seq::empty(), ctype: CommentType::Outside }),
{
    CommentMatcher::new()
}

pub fn identifier_matcher() -> (matcher: IdentifierMatcher)
    ensures
        matcher@ == (IdentifierState { current: Seq::empty(), cooked: false }),
{
    IdentifierMatcher::new()
}

} // verus!
