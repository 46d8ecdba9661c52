//! Lexical analysis: the errors of a lexer, and the engine that runs
//! matchers over characters.

use vstd::prelude::*;
use vstd::string::StringSliceAdditionalSpecFns;

pub mod generic;
pub mod laws;

verus! {

/// An error of the standard library's readers, which is carried and never
/// looked into.
#[verifier::external_type_specification]
#[verifier::external_body]
pub struct ExIoError(std::io::Error);

#[derive(Debug)]
pub enum Error {
    BrokenGrammar(Option<String>),
    UnknownToken(Option<String>),
    UnexpectedEOF,
    IO(std::io::Error),
}

/// What an error says, the fault of a reader left aside.
pub enum Fault {
    BrokenGrammar(Option<Seq<char>>),
    UnknownToken(Option<Seq<char>>),
    UnexpectedEOF,
    IO,
}

impl View for Error {
    type V = Fault;

    open spec fn view(&self) -> Fault {
        match self {
            Error::BrokenGrammar(Some(msg)) => Fault::BrokenGrammar(Some(msg@)),
            Error::BrokenGrammar(None) => Fault::BrokenGrammar(None),
            Error::UnknownToken(Some(token)) => Fault::UnknownToken(Some(token@)),
            Error::UnknownToken(None) => Fault::UnknownToken(None),
            Error::UnexpectedEOF => Fault::UnexpectedEOF,
            Error::IO(_) => Fault::IO,
        }
    }
}

pub type Result<T> = std::result::Result<T, Error>;

/// A lexer: it turns bytes, read as UTF-8, into tokens.
pub trait Lexer<T> {
    /// The tokens of an input, to be asked for one after the other.
    type Tokens;

    fn parse(&mut self, input: &[u8]) -> Self::Tokens;

    fn parse_str(&mut self, string: &str) -> Self::Tokens;
}

impl<T: View, R: generic::MatchRule<T>, S: generic::SkipRule> Lexer<T> for generic::Lexer<T, R, S> {
    type Tokens = generic::TokenIterator<T, R::Output, S::Output>;

    fn parse(&mut self, input: &[u8]) -> (tokens: Self::Tokens)
        ensures
            tokens.wf(),
            tokens@.matchers == generic::fresh_models::<T, R>(old(self).rules@),
            tokens@.rest == generic::code_points(input@),
            tokens@.prev is None,
            generic::made_by::<S>(tokens.skip, old(self).skip),
    {
        generic::Lexer::parse(self, input)
    }

    fn parse_str(&mut self, string: &str) -> (tokens: Self::Tokens)
        ensures
            tokens.wf(),
            tokens@.matchers == generic::fresh_models::<T, R>(old(self).rules@),
            tokens@.rest == generic::code_points(string.spec_bytes()),
            tokens@.prev is None,
            generic::made_by::<S>(tokens.skip, old(self).skip),
    {
        generic::Lexer::parse_str(self, string)
    }
}

impl Error {
    pub fn broken_grammar() -> (error: Self)
        ensures
            error@ == Fault::BrokenGrammar(None),
    {
        Self::BrokenGrammar(None)
    }

    pub fn broken_grammar_msg(msg: &str) -> (error: Self)
        ensures
            error@ == Fault::BrokenGrammar(Some(msg@)),
    {
        Self::BrokenGrammar(Some(String::from_str(msg)))
    }

    pub fn broken_grammar_string(msg: String) -> (error: Self)
        ensures
            error@ == Fault::BrokenGrammar(Some(msg@)),
    {
        Self::BrokenGrammar(Some(msg))
    }

    pub fn unknown_token() -> (error: Self)
        ensures
            error@ == Fault::UnknownToken(None),
    {
        Self::UnknownToken(None)
    }

    pub fn unknown_token_str(token: &str) -> (error: Self)
        ensures
            error@ == Fault::UnknownToken(Some(token@)),
    {
        Self::UnknownToken(Some(String::from_str(token)))
    }

    pub fn unknown_token_string(token: String) -> (error: Self)
        ensures
            error@ == Fault::UnknownToken(Some(token@)),
    {
        Self::UnknownToken(Some(token))
    }

    pub fn unexpected_eof() -> (error: Self)
        ensures
            error@ == Fault::UnexpectedEOF,
    {
        Self::UnexpectedEOF
    }

    pub fn io(err: std::io::Error) -> (error: Self)
        ensures
            error@ == Fault::IO,
    {
        Self::IO(err)
    }

    /// The message of the error.
    pub fn message(&self) -> (text: String)
        ensures
            text@ == fault_text(self@),
    {
        match self {
            Error::BrokenGrammar(msg) => match msg {
                Some(msg) => crate::text::cat2("Broken grammar: ", msg.as_str()),
                None => crate::text::cat2("Broken grammar: ", "<no info>"),
            },
            Error::UnknownToken(token) => match token {
                Some(token) => crate::text::cat2("Unknown token found: ", token.as_str()),
                None => crate::text::cat2("Unknown token found: ", "<not provided>"),
            },
            Error::UnexpectedEOF => String::from_str("Unexpected end of file"),
            Error::IO(_) => String::from_str("Error parsing buffer"),
        }
    }
}

/// The message of a fault.
pub open spec fn fault_text(fault: Fault) -> Seq<char> {
    match fault {
        Fault::BrokenGrammar(Some(msg)) => "Broken grammar: "@ + msg,
        Fault::BrokenGrammar(None) => "Broken grammar: "@ + "<no info>"@,
        Fault::UnknownToken(Some(token)) => "Unknown token found: "@ + token,
        Fault::UnknownToken(None) => "Unknown token found: "@ + "<not provided>"@,
        Fault::UnexpectedEOF => "Unexpected end of file"@,
        Fault::IO => "Error parsing buffer"@,
    }
}

} // verus!
