//! The tokens of the RPC language.

use vstd::prelude::*;

verus! {

#[derive(Clone, Copy, Debug, PartialEq, Eq, Structural)]
pub enum Literal {
    Integer(i64),
}

/// The brackets.
#[derive(Clone, Copy, Debug, PartialEq, Eq, Structural)]
pub enum Bracket {
    Left,
    Right,
    LeftCurly,
    RightCurly,
    LeftSquare,
    RightSquare,
    LeftTriangle,
    RightTriangle,
}

impl Bracket {
    /// How the token is written.
    pub open spec fn text(self) -> Seq<char> {
        match self {
            Bracket::Left => "("@,
            Bracket::Right => ")"@,
            Bracket::LeftCurly => "{"@,
            Bracket::RightCurly => "}"@,
            Bracket::LeftSquare => "["@,
            Bracket::RightSquare => "]"@,
            Bracket::LeftTriangle => "<"@,
            Bracket::RightTriangle => ">"@,
        }
    }

    pub fn to_string(&self) -> (written: String)
        ensures
            written@ == self.text(),
    {
        match self {
            Bracket::Left => String::from_str("("),
            Bracket::Right => String::from_str(")"),
            Bracket::LeftCurly => String::from_str("{"),
            Bracket::RightCurly => String::from_str("}"),
            Bracket::LeftSquare => String::from_str("["),
            Bracket::RightSquare => String::from_str("]"),
            Bracket::LeftTriangle => String::from_str("<"),
            Bracket::RightTriangle => String::from_str(">"),
        }
    }
}

/// The words of types, and the pointer mark.
#[derive(Clone, Copy, Debug, PartialEq, Eq, Structural)]
pub enum Type {
    Void,
    Unsigned,
    Integer,
    Hyper,
    Float,
    Double,
    Boolean,
    Quadruple,
    String,
    Opaque,
    Pointer,
    Enum,
    Struct,
    Union,
}

impl Type {
    /// How the token is written.
    pub open spec fn text(self) -> Seq<char> {
        match self {
            Type::Void => "void"@,
            Type::Unsigned => "unsigned"@,
            Type::Integer => "int"@,
            Type::Hyper => "hyper"@,
            Type::Float => "float"@,
            Type::Double => "double"@,
            Type::Boolean => "bool"@,
            Type::Quadruple => "quadruple"@,
            Type::String => "string"@,
            Type::Opaque => "opaque"@,
            Type::Pointer => "*"@,
            Type::Enum => "enum"@,
            Type::Struct => "struct"@,
            Type::Union => "union"@,
        }
    }

    pub fn to_string(&self) -> (written: String)
        ensures
            written@ == self.text(),
    {
        match self {
            Type::Void => String::from_str("void"),
            Type::Unsigned => String::from_str("unsigned"),
            Type::Integer => String::from_str("int"),
            Type::Hyper => String::from_str("hyper"),
            Type::Float => String::from_str("float"),
            Type::Double => String::from_str("double"),
            Type::Boolean => String::from_str("bool"),
            Type::Quadruple => String::from_str("quadruple"),
            Type::String => String::from_str("string"),
            Type::Opaque => String::from_str("opaque"),
            Type::Pointer => String::from_str("*"),
            Type::Enum => String::from_str("enum"),
            Type::Struct => String::from_str("struct"),
            Type::Union => String::from_str("union"),
        }
    }
}

/// The operators.
#[derive(Clone, Copy, Debug, PartialEq, Eq, Structural)]
pub enum Operator {
    Assign,
}

impl Operator {
    /// How the token is written.
    pub open spec fn text(self) -> Seq<char> {
        match self {
            Operator::Assign => "="@,
        }
    }

    pub fn to_string(&self) -> (written: String)
        ensures
            written@ == self.text(),
    {
        match self {
            Operator::Assign => String::from_str("="),
        }
    }
}

/// The separators.
#[derive(Clone, Copy, Debug, PartialEq, Eq, Structural)]
pub enum Separator {
    Semicolon,
    Colon,
    Comma,
}

impl Separator {
    /// How the token is written.
    pub open spec fn text(self) -> Seq<char> {
        match self {
            Separator::Semicolon => ";"@,
            Separator::Colon => ":"@,
            Separator::Comma => ","@,
        }
    }

    pub fn to_string(&self) -> (written: String)
        ensures
            written@ == self.text(),
    {
        match self {
            Separator::Semicolon => String::from_str(";"),
            Separator::Colon => String::from_str(":"),
            Separator::Comma => String::from_str(","),
        }
    }
}

/// The keywords.
#[derive(Clone, Copy, Debug, PartialEq, Eq, Structural)]
pub enum Keyword {
    Const,
    Case,
    Switch,
    Default,
    Typedef,
    Program,
    Version,
    Procedure,
}

impl Keyword {
    /// How the token is written.
    pub open spec fn text(self) -> Seq<char> {
        match self {
            Keyword::Const => "const"@,
            Keyword::Case => "case"@,
            Keyword::Switch => "switch"@,
            Keyword::Default => "default"@,
            Keyword::Typedef => "typedef"@,
            Keyword::Program => "program"@,
            Keyword::Version => "version"@,
            Keyword::Procedure => "procedure"@,
        }
    }

    pub fn to_string(&self) -> (written: String)
        ensures
            written@ == self.text(),
    {
        match self {
            Keyword::Const => String::from_str("const"),
            Keyword::Case => String::from_str("case"),
            Keyword::Switch => String::from_str("switch"),
            Keyword::Default => String::from_str("default"),
            Keyword::Typedef => String::from_str("typedef"),
            Keyword::Program => String::from_str("program"),
            Keyword::Version => String::from_str("version"),
            Keyword::Procedure => String::from_str("procedure"),
        }
    }
}

#[derive(Debug, PartialEq)]
pub enum Token {
    Identifier(String),
    Keyword(Keyword),
    Bracket(Bracket),
    Type(Type),
    Separator(Separator),
    Literal(Literal),
    Operator(Operator),
    Comment(String),
}

/// What a token holds.
pub enum TokenView {
    Identifier(Seq<char>),
    Keyword(Keyword),
    Bracket(Bracket),
    Type(Type),
    Separator(Separator),
    Literal(Literal),
    Operator(Operator),
    Comment(Seq<char>),
}

impl View for Token {
    type V = TokenView;

    open spec fn view(&self) -> TokenView {
        match self {
            Token::Identifier(name) => TokenView::Identifier(name@),
            Token::Keyword(k) => TokenView::Keyword(*k),
            Token::Bracket(b) => TokenView::Bracket(*b),
            Token::Type(t) => TokenView::Type(*t),
            Token::Separator(s) => TokenView::Separator(*s),
            Token::Literal(l) => TokenView::Literal(*l),
            Token::Operator(o) => TokenView::Operator(*o),
            Token::Comment(text) => TokenView::Comment(text@),
        }
    }
}

impl Clone for Token {
    fn clone(&self) -> (copy: Self)
        ensures
            copy == *self,
    {
        match self {
            Token::Identifier(name) => Token::Identifier(name.clone()),
            Token::Keyword(k) => Token::Keyword(*k),
            Token::Bracket(b) => Token::Bracket(*b),
            Token::Type(t) => Token::Type(*t),
            Token::Separator(s) => Token::Separator(*s),
            Token::Literal(l) => Token::Literal(*l),
            Token::Operator(o) => Token::Operator(*o),
            Token::Comment(text) => Token::Comment(text.clone()),
        }
    }
}

impl Token {
    /// Whether the token is a comment.
    pub fn is_comment(&self) -> (comment: bool)
        ensures
            comment == (*self is Comment),
    {
        match self {
            Token::Comment(_) => true,
            _ => false,
        }
    }
}

} // verus!
