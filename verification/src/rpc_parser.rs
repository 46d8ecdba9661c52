//! The parser of the RPC language: recursive descent over the tokens, with
//! the checks of names, types and numbers made on the way.

use vstd::prelude::*;
use crate::rpc::token::{Bracket, Keyword, Literal, Operator, Separator, Token, TokenView};
use crate::rpc::{
    Definition, DefinitionView, Enum, Float, Integer, Module, NamedType, Procedure,
    ProcedureView, Program, ProgramView, Struct, SwitchingType, Type, Union, UnionView, Value,
    ValueView, Version, VersionView, arm_view, arms_contains, arms_insert, arms_view, fields_view,
    new_enum, new_module, new_procedure, new_program, new_struct, new_union, new_version,
    procedures_insert, program_versions, struct_contains, struct_fields, struct_insert,
    tags_view, union_arms, version_procedures, versions_insert,
};
use crate::text::{cat2, cat3, same_text};

pub mod laws;

verus! {

#[derive(Debug)]
pub enum UnionArm {
    Regular(Value),
    Default,
}

#[derive(Debug)]
pub enum Error {
    UnknownDefinition(Token),
    UnexpectedToken(String, Token),
    ExpressionNotClosed(String, Token),
    UnexpectedEOF(String),
    UndefinedType(String),
    UndefinedValue(String),
    NonPositiveArraySize(i64),
    TypeRedefined(String),
    IdentifierRedefined(String),
    StructureFieldRedefined(String),
    NotSwitchingType(Type),
    UnionArmRedefined(UnionArm),
    UseOfPendingType(String),
    ProgramNumberReassigned(Value),
    VersionNumberReassigned(Value),
    ProcedureNumberReassigned(Value),
}

/// What an error of the parser says.
pub enum Fault {
    UnknownDefinition(TokenView),
    UnexpectedToken(Seq<char>, TokenView),
    ExpressionNotClosed(Seq<char>, TokenView),
    UnexpectedEOF(Seq<char>),
    UndefinedType(Seq<char>),
    UndefinedValue(Seq<char>),
    NonPositiveArraySize(i64),
    TypeRedefined(Seq<char>),
    IdentifierRedefined(Seq<char>),
    StructureFieldRedefined(Seq<char>),
    NotSwitchingType(Type),
    UnionArmRedefined(Option<ValueView>),
    UseOfPendingType(Seq<char>),
    ProgramNumberReassigned(ValueView),
    VersionNumberReassigned(ValueView),
    ProcedureNumberReassigned(ValueView),
}

impl View for Error {
    type V = Fault;

    open spec fn view(&self) -> Fault {
        match self {
            Error::UnknownDefinition(t) => Fault::UnknownDefinition(t@),
            Error::UnexpectedToken(msg, t) => Fault::UnexpectedToken(msg@, t@),
            Error::ExpressionNotClosed(msg, t) => Fault::ExpressionNotClosed(msg@, t@),
            Error::UnexpectedEOF(msg) => Fault::UnexpectedEOF(msg@),
            Error::UndefinedType(msg) => Fault::UndefinedType(msg@),
            Error::UndefinedValue(msg) => Fault::UndefinedValue(msg@),
            Error::NonPositiveArraySize(size) => Fault::NonPositiveArraySize(*size),
            Error::TypeRedefined(msg) => Fault::TypeRedefined(msg@),
            Error::IdentifierRedefined(msg) => Fault::IdentifierRedefined(msg@),
            Error::StructureFieldRedefined(msg) => Fault::StructureFieldRedefined(msg@),
            Error::NotSwitchingType(tp) => Fault::NotSwitchingType(*tp),
            Error::UnionArmRedefined(UnionArm::Regular(v)) => Fault::UnionArmRedefined(Some(v@)),
            Error::UnionArmRedefined(UnionArm::Default) => Fault::UnionArmRedefined(None),
            Error::UseOfPendingType(msg) => Fault::UseOfPendingType(msg@),
            Error::ProgramNumberReassigned(v) => Fault::ProgramNumberReassigned(v@),
            Error::VersionNumberReassigned(v) => Fault::VersionNumberReassigned(v@),
            Error::ProcedureNumberReassigned(v) => Fault::ProcedureNumberReassigned(v@),
        }
    }
}

pub type Result<T> = std::result::Result<T, Error>;

/// Whether a result is the error that says `fault`.
pub open spec fn fails<T>(result: Result<T>, fault: Fault) -> bool {
    match result {
        Err(error) => error@ == fault,
        Ok(_) => false,
    }
}

impl Error {
    pub fn unknown_definition<T>(t: Token) -> (result: Result<T>)
        ensures
            fails(result, Fault::UnknownDefinition(t@)),
    {
        Err(Self::UnknownDefinition(t))
    }

    pub fn unexpected_token<T>(msg: String, t: Token) -> (result: Result<T>)
        ensures
            fails(result, Fault::UnexpectedToken(msg@, t@)),
    {
        Err(Self::UnexpectedToken(msg, t))
    }

    pub fn expression_not_closed<T>(msg: String, t: Token) -> (result: Result<T>)
        ensures
            fails(result, Fault::ExpressionNotClosed(msg@, t@)),
    {
        Err(Self::ExpressionNotClosed(msg, t))
    }

    pub fn unexpected_eof<T>(msg: String) -> (result: Result<T>)
        ensures
            fails(result, Fault::UnexpectedEOF(msg@)),
    {
        Err(Self::UnexpectedEOF(msg))
    }

    pub fn undefined_type<T>(msg: String) -> (result: Result<T>)
        ensures
            fails(result, Fault::UndefinedType(msg@)),
    {
        Err(Self::UndefinedType(msg))
    }

    pub fn undefined_value<T>(msg: String) -> (result: Result<T>)
        ensures
            fails(result, Fault::UndefinedValue(msg@)),
    {
        Err(Self::UndefinedValue(msg))
    }

    pub fn non_positive_array_size<T>(size: i64) -> (result: Result<T>)
        ensures
            fails(result, Fault::NonPositiveArraySize(size)),
    {
        Err(Self::NonPositiveArraySize(size))
    }

    pub fn type_redefined<T>(msg: String) -> (result: Result<T>)
        ensures
            fails(result, Fault::TypeRedefined(msg@)),
    {
        Err(Self::TypeRedefined(msg))
    }

    pub fn identifier_redefined<T>(msg: String) -> (result: Result<T>)
        ensures
            fails(result, Fault::IdentifierRedefined(msg@)),
    {
        Err(Self::IdentifierRedefined(msg))
    }

    pub fn structure_field_redefined<T>(msg: String) -> (result: Result<T>)
        ensures
            fails(result, Fault::StructureFieldRedefined(msg@)),
    {
        Err(Self::StructureFieldRedefined(msg))
    }

    pub fn not_switching_type<T>(tp: Type) -> (result: Result<T>)
        ensures
            fails(result, Fault::NotSwitchingType(tp)),
    {
        Err(Self::NotSwitchingType(tp))
    }

    pub fn union_arm_redefined<T>(v: Value) -> (result: Result<T>)
        ensures
            fails(result, Fault::UnionArmRedefined(Some(v@))),
    {
        Err(Self::UnionArmRedefined(UnionArm::Regular(v)))
    }

    pub fn union_default_redefined<T>() -> (result: Result<T>)
        ensures
            fails(result, Fault::UnionArmRedefined(None)),
    {
        Err(Self::UnionArmRedefined(UnionArm::Default))
    }

    pub fn use_of_pending_type<T>(msg: String) -> (result: Result<T>)
        ensures
            fails(result, Fault::UseOfPendingType(msg@)),
    {
        Err(Self::UseOfPendingType(msg))
    }

    pub fn program_number_reassigned<T>(v: Value) -> (result: Result<T>)
        ensures
            fails(result, Fault::ProgramNumberReassigned(v@)),
    {
        Err(Self::ProgramNumberReassigned(v))
    }

    pub fn version_number_reassigned<T>(v: Value) -> (result: Result<T>)
        ensures
            fails(result, Fault::VersionNumberReassigned(v@)),
    {
        Err(Self::VersionNumberReassigned(v))
    }

    pub fn procedure_number_reassigned<T>(v: Value) -> (result: Result<T>)
        ensures
            fails(result, Fault::ProcedureNumberReassigned(v@)),
    {
        Err(Self::ProcedureNumberReassigned(v))
    }
}

/// The tokens with the comments left out: the first `n` of them.
pub open spec fn uncommented(tokens: Seq<Token>, n: nat) -> Seq<Token>
    decreases n,
{
    if n == 0 || n > tokens.len() {
        Seq::empty()
    } else if tokens[n - 1] is Comment {
        uncommented(tokens, (n - 1) as nat)
    } else {
        uncommented(tokens, (n - 1) as nat).push(tokens[n - 1])
    }
}

/// A cursor over tokens that lets the last token read be put back, once.
pub struct PickIterator {
    pub tokens: Vec<Token>,
    pub pos: usize,
    pub picked: bool,
}

impl View for PickIterator {
    type V = Seq<Token>;

    /// The tokens still to come.
    open spec fn view(&self) -> Seq<Token> {
        self.tokens@.subrange(self.pos as int, self.tokens@.len() as int)
    }
}

impl PickIterator {
    pub open spec fn wf(&self) -> bool {
        self.pos <= self.tokens@.len()
    }

    pub fn new(tokens: Vec<Token>) -> (iter: Self)
        ensures
            iter.wf(),
            iter@ == tokens@,
            !iter.picked,
    {
        let iter = PickIterator { tokens, pos: 0, picked: false };
        assert(iter@ =~= tokens@);
        iter
    }

    /// The next token, if one is left.
    pub fn next(&mut self) -> (token: Option<Token>)
        requires
            old(self).wf(),
        ensures
            final(self).wf(),
            final(self).tokens == old(self).tokens,
            !final(self).picked,
            match token {
                Some(t) => old(self)@.len() > 0 && t == old(self)@[0] && final(self)@ == old(self)@.skip(1)
                    && final(self).pos == old(self).pos + 1,
                None => old(self)@.len() == 0 && final(self).pos == old(self).pos,
            },
    {
        self.picked = false;
        if self.pos < self.tokens.len() {
            let token = self.tokens[self.pos].clone();
            self.pos = self.pos + 1;
            assert(self@ =~= old(self)@.skip(1));
            Some(token)
        } else {
            None
        }
    }

    /// The token that stands `offset` tokens ahead, if there is one.
    pub fn ahead(&self, offset: usize) -> (token: Option<&Token>)
        requires
            self.wf(),
        ensures
            match token {
                Some(t) => offset < self@.len() && *t == self@[offset as int],
                None => offset >= self@.len(),
            },
    {
        if offset < self.tokens.len() - self.pos {
            Some(&self.tokens[self.pos + offset])
        } else {
            None
        }
    }

    /// Puts back the token that was read last.
    pub fn push_back(&mut self, t: Token)
        requires
            old(self).wf(),
            !old(self).picked,
            old(self).pos > 0,
            old(self).tokens@[old(self).pos - 1] == t,
        ensures
            final(self).wf(),
            final(self).tokens == old(self).tokens,
            final(self).pos == old(self).pos - 1,
            final(self).picked,
    {
        self.pos = self.pos - 1;
        self.picked = true;
    }
}

/// The names that a list holds.
pub open spec fn name_set(names: Seq<String>) -> Set<Seq<char>> {
    Set::new(|name: Seq<char>| exists|i: int| 0 <= i < names.len() && (#[trigger] names[i])@ == name)
}

/// The values that a list holds.
pub open spec fn value_set(values: Seq<Value>) -> Set<ValueView> {
    Set::new(|value: ValueView| exists|i: int| 0 <= i < values.len() && (#[trigger] values[i])@ == value)
}

/// Whether no name occurs twice in the list.
pub open spec fn names_distinct(names: Seq<String>) -> bool {
    forall|i: int, j: int| 0 <= i < j < names.len() ==> (#[trigger] names[i])@ != (#[trigger] names[j])@
}

/// Whether no value occurs twice in the list.
pub open spec fn values_distinct(values: Seq<Value>) -> bool {
    forall|i: int, j: int| 0 <= i < j < values.len() ==> (#[trigger] values[i])@ != (#[trigger] values[j])@
}

/// Whether no name stands for two numbers in the list.
pub open spec fn numbers_distinct(entries: Seq<(String, i64)>) -> bool {
    forall|i: int, j: int|
        0 <= i < j < entries.len() ==> (#[trigger] entries[i]).0@ != (#[trigger] entries[j]).0@
}

/// Whether the list holds the name.
pub fn has_name(names: &Vec<String>, name: &str) -> (found: bool)
    ensures
        found == name_set(names@).contains(name@),
{
    let mut i: usize = 0;
    while i < names.len()
        invariant
            i <= names@.len(),
            forall|j: int| 0 <= j < i ==> (#[trigger] names@[j])@ != name@,
        decreases names@.len() - i,
    {
        if same_text(names[i].as_str(), name) {
            return true;
        }
        i = i + 1;
    }
    false
}

/// Adds the name to the list, unless the list holds it.
pub fn add_name(names: &mut Vec<String>, name: String)
    requires
        names_distinct(old(names)@),
    ensures
        names_distinct(final(names)@),
        name_set(final(names)@) == name_set(old(names)@).insert(name@),
{
    if has_name(names, name.as_str()) {
        assert(name_set(names@) =~= name_set(names@).insert(name@));
        return ;
    }
    names.push(name);
    assert forall|text: Seq<char>| name_set(names@).contains(text) <==> name_set(old(names)@).insert(
        name@,
    ).contains(text) by {
        if name_set(names@).contains(text) {
            let i = choose|i: int| 0 <= i < names@.len() && (#[trigger] names@[i])@ == text;
            if i < old(names)@.len() {
                assert(old(names)@[i]@ == text);
            }
        }
        if name_set(old(names)@).contains(text) {
            let i = choose|i: int| 0 <= i < old(names)@.len() && (#[trigger] old(names)@[i])@ == text;
            assert(names@[i]@ == text);
        }
        if text == name@ {
            assert(names@[names@.len() - 1]@ == text);
        }
    }
    assert(name_set(names@) =~= name_set(old(names)@).insert(name@));
    assert forall|i: int, j: int| 0 <= i < j < names@.len() implies (#[trigger] names@[i])@ != (
    #[trigger] names@[j])@ by {
        assert(names@[i] == old(names)@[i]);
        if j == names@.len() - 1 {
            assert(!name_set(old(names)@).contains(old(names)@[i]@) || old(names)@[i]@ != name@);
        } else {
            assert(names@[j] == old(names)@[j]);
        }
    }
}

/// The numbers that the names of a list stand for; a later pair of a name
/// counts.
pub open spec fn number_map(entries: Seq<(String, i64)>) -> Map<Seq<char>, i64>
    decreases entries.len(),
{
    if entries.len() == 0 {
        Map::empty()
    } else {
        number_map(entries.drop_last()).insert(entries.last().0@, entries.last().1)
    }
}

/// The number that a name of the list stands for.
pub fn number_named(entries: &Vec<(String, i64)>, name: &str) -> (found: Option<i64>)
    ensures
        match found {
            Some(n) => number_map(entries@).contains_key(name@) && number_map(entries@)[name@] == n,
            None => !number_map(entries@).contains_key(name@),
        },
{
    let mut i: usize = entries.len();
    assert(entries@.take(i as int) =~= entries@);
    while i > 0
        invariant
            i <= entries@.len(),
            number_map(entries@).contains_key(name@) == number_map(entries@.take(i as int)).contains_key(
                name@,
            ),
            number_map(entries@).contains_key(name@) ==> number_map(entries@)[name@] == number_map(
                entries@.take(i as int),
            )[name@],
        decreases i,
    {
        assert(entries@.take(i as int).drop_last() =~= entries@.take(i - 1));
        assert(entries@.take(i as int).last() == entries@[i - 1]);
        i = i - 1;
        if same_text(entries[i].0.as_str(), name) {
            return Some(entries[i].1);
        }
    }
    None
}

/// Lets the name stand for the number.
pub fn add_number(entries: &mut Vec<(String, i64)>, name: String, number: i64)
    ensures
        final(entries)@ == old(entries)@.push((name, number)),
        number_map(final(entries)@) == number_map(old(entries)@).insert(name@, number),
{
    entries.push((name, number));
    assert(entries@.drop_last() =~= old(entries)@);
}

/// Whether the list holds the value.
pub fn has_value(values: &Vec<Value>, value: &Value) -> (found: bool)
    ensures
        found == value_set(values@).contains(value@),
{
    let mut i: usize = 0;
    while i < values.len()
        invariant
            i <= values@.len(),
            forall|j: int| 0 <= j < i ==> (#[trigger] values@[j])@ != value@,
        decreases values@.len() - i,
    {
        if crate::rpc_generator::handle::same_value(&values[i], value) {
            return true;
        }
        i = i + 1;
    }
    false
}

/// Adds the value to the list, unless the list holds it.
pub fn add_value(values: &mut Vec<Value>, value: Value)
    requires
        values_distinct(old(values)@),
    ensures
        values_distinct(final(values)@),
        value_set(final(values)@) == value_set(old(values)@).insert(value@),
{
    if has_value(values, &value) {
        assert(value_set(values@) =~= value_set(values@).insert(value@));
        return ;
    }
    values.push(value);
    assert forall|v: ValueView| value_set(values@).contains(v) <==> value_set(old(values)@).insert(
        value@,
    ).contains(v) by {
        if value_set(values@).contains(v) {
            let i = choose|i: int| 0 <= i < values@.len() && (#[trigger] values@[i])@ == v;
            if i < old(values)@.len() {
                assert(old(values)@[i]@ == v);
            }
        }
        if value_set(old(values)@).contains(v) {
            let i = choose|i: int| 0 <= i < old(values)@.len() && (#[trigger] old(values)@[i])@ == v;
            assert(values@[i]@ == v);
        }
        if v == value@ {
            assert(values@[values@.len() - 1]@ == v);
        }
    }
    assert(value_set(values@) =~= value_set(old(values)@).insert(value@));
    assert forall|i: int, j: int| 0 <= i < j < values@.len() implies (#[trigger] values@[i])@ != (
    #[trigger] values@[j])@ by {
        assert(values@[i] == old(values)@[i]);
        if j == values@.len() - 1 {
            assert(!value_set(old(values)@).contains(old(values)@[i]@) || old(values)@[i]@ != value@);
        } else {
            assert(values@[j] == old(values)@[j]);
        }
    }
}

/// The names and numbers that the definitions read so far have taken.
pub struct Scope {
    /// The names of constants, enum tags, typedefs and programs.
    pub namespace: Set<Seq<char>>,
    /// The names that may stand for a value, constants and enum tags, each
    /// with the number that it stands for.
    pub values: Map<Seq<char>, i64>,
    /// The number of the tag read last in the enum that is being defined.
    pub last_tag: Option<i64>,
    pub typedefs: Set<Seq<char>>,
    pub enums: Set<Seq<char>>,
    pub structs: Set<Seq<char>>,
    pub unions: Set<Seq<char>>,
    /// The structure that is being defined.
    pub pending_struct: Option<Seq<char>>,
    /// The union that is being defined.
    pub pending_union: Option<Seq<char>>,
    /// The numbers of the programs.
    pub numbers: Set<ValueView>,
}

impl Scope {
    /// Whether a type has the name: a typedef, an enum, a structure or a
    /// union.
    pub open spec fn type_taken(self, name: Seq<char>) -> bool {
        self.typedefs.contains(name) || self.enums.contains(name) || self.structs.contains(name)
            || self.unions.contains(name)
    }

    /// The scope before the first definition.
    pub open spec fn empty() -> Scope {
        Scope {
            namespace: Set::empty(),
            values: Map::empty(),
            last_tag: None,
            typedefs: Set::empty(),
            enums: Set::empty(),
            structs: Set::empty(),
            unions: Set::empty(),
            pending_struct: None,
            pending_union: None,
            numbers: Set::empty(),
        }
    }
}

pub struct PendingTypes {
    pub structs: Option<String>,
    pub unions: Option<String>,
}

pub struct DefinedTypes {
    pub typedefs: Vec<String>,
    pub enums: Vec<String>,
    pub structs: Vec<String>,
    pub unions: Vec<String>,
}

/// The state of the parser: the tokens to come and the scope.
pub struct Handle {
    pub tokens: PickIterator,
    pub namespace: Vec<String>,
    pub values: Vec<(String, i64)>,
    pub last_tag: Option<i64>,
    pub pending_types: PendingTypes,
    pub defined_types: DefinedTypes,
    pub assigned_numbers: Vec<Value>,
}

/// The characters of an optional name.
pub open spec fn opt_name(name: Option<String>) -> Option<Seq<char>> {
    match name {
        Some(name) => Some(name@),
        None => None,
    }
}

impl Handle {
    /// The tokens are in order, no list holds a name or a number twice,
    /// and every name that stands for a number is in the namespace.
    pub open spec fn wf(&self) -> bool {
        &&& self.tokens.wf()
        &&& names_distinct(self.namespace@)
        &&& numbers_distinct(self.values@)
        &&& forall|i: int|
            0 <= i < self.values@.len() ==> name_set(self.namespace@).contains((#[trigger] self.values@[i]).0@)
        &&& names_distinct(self.defined_types.typedefs@)
        &&& names_distinct(self.defined_types.enums@)
        &&& names_distinct(self.defined_types.structs@)
        &&& names_distinct(self.defined_types.unions@)
        &&& values_distinct(self.assigned_numbers@)
    }

    /// The tokens to come.
    pub open spec fn rest(&self) -> Seq<Token> {
        self.tokens@
    }

    pub open spec fn scope(&self) -> Scope {
        Scope {
            namespace: name_set(self.namespace@),
            values: number_map(self.values@),
            last_tag: self.last_tag,
            typedefs: name_set(self.defined_types.typedefs@),
            enums: name_set(self.defined_types.enums@),
            structs: name_set(self.defined_types.structs@),
            unions: name_set(self.defined_types.unions@),
            pending_struct: opt_name(self.pending_types.structs),
            pending_union: opt_name(self.pending_types.unions),
            numbers: value_set(self.assigned_numbers@),
        }
    }
}

/// Says whether a type has the name.
pub fn type_taken(handle: &Handle, name: &str) -> (taken: bool)
    ensures
        taken == handle.scope().type_taken(name@),
{
    has_name(&handle.defined_types.typedefs, name) || has_name(&handle.defined_types.enums, name)
        || has_name(&handle.defined_types.structs, name) || has_name(&handle.defined_types.unions, name)
}

/// A value read, with the tokens behind it.
pub struct Taken<T> {
    pub value: T,
    pub rest: Seq<Token>,
}

/// A value read, with the tokens behind it and the scope that it leaves.
pub struct Parsed<T> {
    pub value: T,
    pub rest: Seq<Token>,
    pub scope: Scope,
}

/// How a token in the wrong place is complained of.
#[derive(Clone, Copy, PartialEq, Eq, Structural)]
pub enum Complaint {
    Unexpected,
    NotClosed,
}

/// The complaint of a token in the wrong place.
pub open spec fn complaint(kind: Complaint, msg: Seq<char>, t: Token) -> Fault {
    match kind {
        Complaint::Unexpected => Fault::UnexpectedToken(msg, t@),
        Complaint::NotClosed => Fault::ExpressionNotClosed(msg, t@),
    }
}

/// The tokens behind the one that is wanted next.
pub open spec fn expected(
    rest: Seq<Token>,
    wanted: TokenView,
    eof: Seq<char>,
    msg: Seq<char>,
    kind: Complaint,
) -> std::result::Result<Seq<Token>, Fault> {
    if rest.len() == 0 {
        Err(Fault::UnexpectedEOF(eof))
    } else if rest[0]@ == wanted {
        Ok(rest.skip(1))
    } else {
        Err(complaint(kind, msg, rest[0]))
    }
}

/// The identifier that is wanted next.
pub open spec fn named(rest: Seq<Token>, eof: Seq<char>, msg: Seq<char>, kind: Complaint) -> std::result::Result<
    Taken<String>,
    Fault,
> {
    if rest.len() == 0 {
        Err(Fault::UnexpectedEOF(eof))
    } else {
        match rest[0] {
            Token::Identifier(id) => Ok(Taken { value: id, rest: rest.skip(1) }),
            t => Err(complaint(kind, msg, t)),
        }
    }
}

/// Whether two tokens hold the same.
pub fn same_token(a: &Token, b: &Token) -> (same: bool)
    ensures
        same == (a@ == b@),
{
    match a {
        Token::Identifier(x) => match b {
            Token::Identifier(y) => same_text(x.as_str(), y.as_str()),
            _ => false,
        },
        Token::Keyword(x) => match b {
            Token::Keyword(y) => *x == *y,
            _ => false,
        },
        Token::Bracket(x) => match b {
            Token::Bracket(y) => *x == *y,
            _ => false,
        },
        Token::Type(x) => match b {
            Token::Type(y) => *x == *y,
            _ => false,
        },
        Token::Separator(x) => match b {
            Token::Separator(y) => *x == *y,
            _ => false,
        },
        Token::Literal(x) => match b {
            Token::Literal(y) => *x == *y,
            _ => false,
        },
        Token::Operator(x) => match b {
            Token::Operator(y) => *x == *y,
            _ => false,
        },
        Token::Comment(x) => match b {
            Token::Comment(y) => same_text(x.as_str(), y.as_str()),
            _ => false,
        },
    }
}

fn complain<T>(kind: Complaint, msg: &str, t: Token) -> (result: Result<T>)
    ensures
        fails(result, complaint(kind, msg@, t)),
{
    match kind {
        Complaint::Unexpected => Error::unexpected_token(String::from_str(msg), t),
        Complaint::NotClosed => Error::expression_not_closed(String::from_str(msg), t),
    }
}

/// Reads the token that is wanted next.
pub fn expect(handle: &mut Handle, wanted: &Token, eof: &str, msg: &str, kind: Complaint) -> (result: Result<()>)
    requires
        old(handle).wf(),
    ensures
        final(handle).wf(),
        final(handle).scope() == old(handle).scope(),
        match result {
            Ok(_) => expected(old(handle).rest(), wanted@, eof@, msg@, kind) == Ok::<Seq<Token>, Fault>(
                final(handle).rest(),
            ) && final(handle).rest().len() < old(handle).rest().len(),
            Err(error) => expected(old(handle).rest(), wanted@, eof@, msg@, kind) == Err::<
                Seq<Token>,
                Fault,
            >(error@),
        },
{
    match handle.tokens.next() {
        None => Error::unexpected_eof(String::from_str(eof)),
        Some(t) => {
            if same_token(&t, wanted) {
                Ok(())
            } else {
                complain(kind, msg, t)
            }
        },
    }
}

/// Reads the identifier that is wanted next.
pub fn expect_name(handle: &mut Handle, eof: &str, msg: &str, kind: Complaint) -> (result: Result<String>)
    requires
        old(handle).wf(),
    ensures
        final(handle).wf(),
        final(handle).scope() == old(handle).scope(),
        match result {
            Ok(id) => named(old(handle).rest(), eof@, msg@, kind) == Ok::<Taken<String>, Fault>(
                Taken { value: id, rest: final(handle).rest() },
            ) && final(handle).rest().len() < old(handle).rest().len(),
            Err(error) => named(old(handle).rest(), eof@, msg@, kind) == Err::<Taken<String>, Fault>(
                error@,
            ),
        },
{
    match handle.tokens.next() {
        None => Error::unexpected_eof(String::from_str(eof)),
        Some(t) => match t {
            Token::Identifier(id) => Ok(id),
            t => complain(kind, msg, t),
        },
    }
}

/// The number that a value stands for: its own, or that of its name.
pub open spec fn number_of(scope: Scope, v: Value) -> i64 {
    match v {
        Value::Number(n) => n,
        Value::Identifier(id) => if scope.values.contains_key(id@) {
            scope.values[id@]
        } else {
            0
        },
    }
}

/// The number that a value stands for.
pub fn value_number(handle: &Handle, v: &Value) -> (n: i64)
    ensures
        n == number_of(handle.scope(), *v),
{
    match v {
        Value::Number(n) => *n,
        Value::Identifier(id) => match number_named(&handle.values, id.as_str()) {
            Some(n) => n,
            None => 0,
        },
    }
}

/// The number of a tag that has no value of its own: nothing for the first
/// tag of an enum, else one more than the tag before it stands for.
pub open spec fn implied_number(last: Option<i64>) -> i64 {
    match last {
        None => 0,
        Some(n) => if n < i64::MAX {
            (n + 1) as i64
        } else {
            n
        },
    }
}

/// The value that comes next: a number or the name of a constant or an
/// enum tag. Where a size is asked for, the number that it stands for must
/// be positive.
pub open spec fn value(rest: Seq<Token>, scope: Scope, positive: bool) -> std::result::Result<
    Taken<Value>,
    Fault,
> {
    if rest.len() == 0 {
        Err(Fault::UnexpectedEOF("Expected value"@))
    } else {
        match rest[0] {
            Token::Literal(Literal::Integer(num)) => if positive && 0 >= num {
                Err(Fault::NonPositiveArraySize(num))
            } else {
                Ok(Taken { value: Value::Number(num), rest: rest.skip(1) })
            },
            Token::Identifier(id) => if !scope.values.contains_key(id@) {
                Err(Fault::UndefinedValue(id@))
            } else if positive && 0 >= scope.values[id@] {
                Err(Fault::NonPositiveArraySize(scope.values[id@]))
            } else {
                Ok(Taken { value: Value::Identifier(id), rest: rest.skip(1) })
            },
            t => Err(Fault::UnexpectedToken("Expected value"@, t@)),
        }
    }
}

pub fn parse_value_condition(handle: &mut Handle, positive: bool) -> (result: Result<Value>)
    requires
        old(handle).wf(),
    ensures
        final(handle).wf(),
        final(handle).scope() == old(handle).scope(),
        match result {
            Ok(v) => value(old(handle).rest(), old(handle).scope(), positive) == Ok::<Taken<Value>, Fault>(
                Taken { value: v, rest: final(handle).rest() },
            ) && final(handle).rest().len() < old(handle).rest().len(),
            Err(error) => value(old(handle).rest(), old(handle).scope(), positive) == Err::<
                Taken<Value>,
                Fault,
            >(error@),
        },
{
    match handle.tokens.next() {
        None => Error::unexpected_eof(String::from_str("Expected value")),
        Some(t) => match t {
            Token::Literal(Literal::Integer(num)) => {
                if positive && 0 >= num {
                    Error::non_positive_array_size(num)
                } else {
                    Ok(Value::Number(num))
                }
            },
            Token::Identifier(id) => match number_named(&handle.values, id.as_str()) {
                None => Error::undefined_value(id),
                Some(num) => {
                    if positive && 0 >= num {
                        Error::non_positive_array_size(num)
                    } else {
                        Ok(Value::Identifier(id))
                    }
                },
            },
            t => Error::unexpected_token(String::from_str("Expected value"), t),
        },
    }
}

pub fn parse_value(handle: &mut Handle) -> (result: Result<Value>)
    requires
        old(handle).wf(),
    ensures
        final(handle).wf(),
        final(handle).scope() == old(handle).scope(),
        match result {
            Ok(v) => value(old(handle).rest(), old(handle).scope(), false) == Ok::<Taken<Value>, Fault>(
                Taken { value: v, rest: final(handle).rest() },
            ) && final(handle).rest().len() < old(handle).rest().len(),
            Err(error) => value(old(handle).rest(), old(handle).scope(), false) == Err::<
                Taken<Value>,
                Fault,
            >(error@),
        },
{
    parse_value_condition(handle, false)
}

/// Whether a result is what was to be read, with `rest` behind it.
pub open spec fn took<T>(result: Result<T>, wanted: std::result::Result<Taken<T>, Fault>, rest: Seq<Token>) -> bool {
    match result {
        Ok(v) => wanted == Ok::<Taken<T>, Fault>(Taken { value: v, rest }),
        Err(error) => wanted == Err::<Taken<T>, Fault>(error@),
    }
}

/// The type that a name stands for, before a pointer mark and an array
/// bound are looked for: a word of a type, `unsigned` with `int` or
/// `hyper`, `enum`, `struct` or `union` with the name of a declared one (or
/// of the structure or union that is being defined), or the name of a
/// typedef.
pub open spec fn base_type(rest: Seq<Token>, scope: Scope) -> std::result::Result<Taken<Type>, Fault> {
    if rest.len() == 0 {
        Err(Fault::UnexpectedEOF("Expected declaration type"@))
    } else {
        let behind = rest.skip(1);
        match rest[0] {
            Token::Type(t) => match t {
                crate::rpc::token::Type::Void => Ok(Taken { value: Type::Void, rest: behind }),
                crate::rpc::token::Type::Unsigned => if behind.len() == 0 {
                    Err(Fault::UnexpectedEOF("Expected integer type"@))
                } else {
                    match behind[0] {
                        Token::Type(crate::rpc::token::Type::Integer) => Ok(
                            Taken { value: Type::Unsigned(Integer::Integer), rest: behind.skip(1) },
                        ),
                        Token::Type(crate::rpc::token::Type::Hyper) => Ok(
                            Taken { value: Type::Unsigned(Integer::Hyper), rest: behind.skip(1) },
                        ),
                        t => Err(Fault::UnexpectedToken("Expected integer type"@, t@)),
                    }
                },
                crate::rpc::token::Type::Integer => Ok(
                    Taken { value: Type::Integer(Integer::Integer), rest: behind },
                ),
                crate::rpc::token::Type::Hyper => Ok(
                    Taken { value: Type::Integer(Integer::Hyper), rest: behind },
                ),
                crate::rpc::token::Type::Float => Ok(
                    Taken { value: Type::Float(Float::Single), rest: behind },
                ),
                crate::rpc::token::Type::Double => Ok(
                    Taken { value: Type::Float(Float::Double), rest: behind },
                ),
                crate::rpc::token::Type::Quadruple => Ok(
                    Taken { value: Type::Float(Float::Quadruple), rest: behind },
                ),
                crate::rpc::token::Type::Boolean => Ok(Taken { value: Type::Boolean, rest: behind }),
                crate::rpc::token::Type::String => Ok(Taken { value: Type::String, rest: behind }),
                crate::rpc::token::Type::Opaque => Ok(Taken { value: Type::Opaque, rest: behind }),
                crate::rpc::token::Type::Enum => match named(
                    behind,
                    "No identifier for enum"@,
                    "No identifier for enum"@,
                    Complaint::Unexpected,
                ) {
                    Err(fault) => Err(fault),
                    Ok(name) => if scope.enums.contains(name.value@) {
                        Ok(Taken { value: Type::Named(NamedType::Enum(name.value)), rest: name.rest })
                    } else {
                        Err(Fault::UndefinedType("Unknown enum with identifier "@ + name.value@))
                    },
                },
                crate::rpc::token::Type::Struct => match named(
                    behind,
                    "No identifier for struct"@,
                    "No identifier for struct"@,
                    Complaint::Unexpected,
                ) {
                    Err(fault) => Err(fault),
                    Ok(name) => if scope.structs.contains(name.value@) || scope.pending_struct == Some(
                        name.value@,
                    ) {
                        Ok(Taken { value: Type::Named(NamedType::Struct(name.value)), rest: name.rest })
                    } else {
                        Err(Fault::UndefinedType("Unknown struct with identifier "@ + name.value@))
                    },
                },
                crate::rpc::token::Type::Union => match named(
                    behind,
                    "No identifier for union"@,
                    "No identifier for union"@,
                    Complaint::Unexpected,
                ) {
                    Err(fault) => Err(fault),
                    Ok(name) => if scope.unions.contains(name.value@) || scope.pending_union == Some(
                        name.value@,
                    ) {
                        Ok(Taken { value: Type::Named(NamedType::Union(name.value)), rest: name.rest })
                    } else {
                        Err(Fault::UndefinedType("Unknown union with identifier "@ + name.value@))
                    },
                },
                crate::rpc::token::Type::Pointer => Err(Fault::UndefinedType("No type for pointer"@)),
            },
            Token::Identifier(id) => if scope.typedefs.contains(id@) {
                Ok(Taken { value: Type::Named(NamedType::Typedef(id)), rest: behind })
            } else {
                Err(Fault::UndefinedType("Unknown type identifier "@ + id@))
            },
            t => Err(Fault::UnexpectedToken("Expected declaration type"@, t@)),
        }
    }
}

/// Whether the pointer mark comes next.
pub open spec fn marked(rest: Seq<Token>) -> bool {
    rest.len() > 0 && rest[0]@ == TokenView::Type(crate::rpc::token::Type::Pointer)
}

/// A type by its name, as a pointer if the pointer mark follows. The
/// structure or the union that is being defined may only be pointed to.
pub open spec fn type_identifier(rest: Seq<Token>, scope: Scope) -> std::result::Result<Taken<Type>, Fault> {
    match base_type(rest, scope) {
        Err(fault) => Err(fault),
        Ok(base) => if marked(base.rest) {
            Ok(Taken { value: Type::Pointer(Box::new(base.value)), rest: base.rest.skip(1) })
        } else {
            match base.value {
                Type::Named(NamedType::Struct(st)) if scope.pending_struct == Some(st@) => Err(
                    Fault::UseOfPendingType(
                        "Can't use struct \""@ + st@ + "\" that is being defined directly"@,
                    ),
                ),
                Type::Named(NamedType::Union(un)) if scope.pending_union == Some(un@) => Err(
                    Fault::UseOfPendingType(
                        "Can't use union \""@ + un@ + "\" that is being defined directly"@,
                    ),
                ),
                _ => Ok(base),
            }
        },
    }
}

fn is_pending(pending: &Option<String>, name: &str) -> (pending_now: bool)
    ensures
        pending_now == (opt_name(*pending) == Some(name@)),
{
    match pending {
        Some(pid) => same_text(pid.as_str(), name),
        None => false,
    }
}

pub fn parse_base_type(handle: &mut Handle) -> (result: Result<Type>)
    requires
        old(handle).wf(),
    ensures
        final(handle).wf(),
        final(handle).scope() == old(handle).scope(),
        took(result, base_type(old(handle).rest(), old(handle).scope()), final(handle).rest()),
        result is Ok ==> final(handle).rest().len() < old(handle).rest().len(),
{
    match handle.tokens.next() {
        None => Error::unexpected_eof(String::from_str("Expected declaration type")),
        Some(t) => match t {
            Token::Type(t) => match t {
                crate::rpc::token::Type::Void => Ok(Type::Void),
                crate::rpc::token::Type::Unsigned => match handle.tokens.next() {
                    None => Error::unexpected_eof(String::from_str("Expected integer type")),
                    Some(t) => match t {
                        Token::Type(crate::rpc::token::Type::Integer) => Ok(Type::Unsigned(Integer::Integer)),
                        Token::Type(crate::rpc::token::Type::Hyper) => Ok(Type::Unsigned(Integer::Hyper)),
                        t => Error::unexpected_token(String::from_str("Expected integer type"), t),
                    },
                },
                crate::rpc::token::Type::Integer => Ok(Type::Integer(Integer::Integer)),
                crate::rpc::token::Type::Hyper => Ok(Type::Integer(Integer::Hyper)),
                crate::rpc::token::Type::Float => Ok(Type::Float(Float::Single)),
                crate::rpc::token::Type::Double => Ok(Type::Float(Float::Double)),
                crate::rpc::token::Type::Quadruple => Ok(Type::Float(Float::Quadruple)),
                crate::rpc::token::Type::Boolean => Ok(Type::Boolean),
                crate::rpc::token::Type::String => Ok(Type::String),
                crate::rpc::token::Type::Opaque => Ok(Type::Opaque),
                crate::rpc::token::Type::Enum => {
                    match expect_name(
                        handle,
                        "No identifier for enum",
                        "No identifier for enum",
                        Complaint::Unexpected,
                    ) {
                        Err(error) => Err(error),
                        Ok(id) => {
                            if has_name(&handle.defined_types.enums, id.as_str()) {
                                Ok(Type::Named(NamedType::Enum(id)))
                            } else {
                                Error::undefined_type(cat2("Unknown enum with identifier ", id.as_str()))
                            }
                        },
                    }
                },
                crate::rpc::token::Type::Struct => {
                    match expect_name(
                        handle,
                        "No identifier for struct",
                        "No identifier for struct",
                        Complaint::Unexpected,
                    ) {
                        Err(error) => Err(error),
                        Ok(id) => {
                            if has_name(&handle.defined_types.structs, id.as_str()) || is_pending(
                                &handle.pending_types.structs,
                                id.as_str(),
                            ) {
                                Ok(Type::Named(NamedType::Struct(id)))
                            } else {
                                Error::undefined_type(cat2("Unknown struct with identifier ", id.as_str()))
                            }
                        },
                    }
                },
                crate::rpc::token::Type::Union => {
                    match expect_name(
                        handle,
                        "No identifier for union",
                        "No identifier for union",
                        Complaint::Unexpected,
                    ) {
                        Err(error) => Err(error),
                        Ok(id) => {
                            if has_name(&handle.defined_types.unions, id.as_str()) || is_pending(
                                &handle.pending_types.unions,
                                id.as_str(),
                            ) {
                                Ok(Type::Named(NamedType::Union(id)))
                            } else {
                                Error::undefined_type(cat2("Unknown union with identifier ", id.as_str()))
                            }
                        },
                    }
                },
                crate::rpc::token::Type::Pointer => Error::undefined_type(
                    String::from_str("No type for pointer"),
                ),
            },
            Token::Identifier(id) => {
                if has_name(&handle.defined_types.typedefs, id.as_str()) {
                    Ok(Type::Named(NamedType::Typedef(id)))
                } else {
                    Error::undefined_type(cat2("Unknown type identifier ", id.as_str()))
                }
            },
            t => Error::unexpected_token(String::from_str("Expected declaration type"), t),
        },
    }
}

/// Reads the pointer mark, if it comes next.
pub fn take_mark(handle: &mut Handle) -> (taken: bool)
    requires
        old(handle).wf(),
    ensures
        final(handle).wf(),
        final(handle).scope() == old(handle).scope(),
        taken == marked(old(handle).rest()),
        final(handle).rest() == if taken {
            old(handle).rest().skip(1)
        } else {
            old(handle).rest()
        },
{
    match handle.tokens.next() {
        None => false,
        Some(t) => match t {
            Token::Type(crate::rpc::token::Type::Pointer) => true,
            t => {
                handle.tokens.push_back(t);
                false
            },
        },
    }
}

pub fn parse_type_identifier(handle: &mut Handle) -> (result: Result<Type>)
    requires
        old(handle).wf(),
    ensures
        final(handle).wf(),
        final(handle).scope() == old(handle).scope(),
        took(result, type_identifier(old(handle).rest(), old(handle).scope()), final(handle).rest()),
        result is Ok ==> final(handle).rest().len() < old(handle).rest().len(),
{
    match parse_base_type(handle) {
        Err(error) => Err(error),
        Ok(base) => {
            if take_mark(handle) {
                Ok(Type::Pointer(Box::new(base)))
            } else {
                match &base {
                    Type::Named(NamedType::Struct(st)) => {
                        if is_pending(&handle.pending_types.structs, st.as_str()) {
                            return Error::use_of_pending_type(
                                cat3("Can't use struct \"", st.as_str(), "\" that is being defined directly"),
                            );
                        }
                    },
                    Type::Named(NamedType::Union(un)) => {
                        if is_pending(&handle.pending_types.unions, un.as_str()) {
                            return Error::use_of_pending_type(
                                cat3("Can't use union \"", un.as_str(), "\" that is being defined directly"),
                            );
                        }
                    },
                    _ => {},
                }
                Ok(base)
            }
        },
    }
}

/// The type with the array bound that follows: `[n]` makes an array,
/// `<n>` and `<>` a variable-length array; a size must be positive.
/// Without a bound the type stays as it is.
pub open spec fn array_type(rest: Seq<Token>, scope: Scope, tp: Type) -> std::result::Result<Taken<Type>, Fault> {
    if rest.len() == 0 {
        Ok(Taken { value: tp, rest })
    } else if rest[0]@ == TokenView::Bracket(Bracket::LeftTriangle) {
        let behind = rest.skip(1);
        if behind.len() == 0 {
            Err(Fault::UnexpectedEOF("Expected variadic array closing bracket or size hint"@))
        } else if behind[0]@ == TokenView::Bracket(Bracket::RightTriangle) {
            Ok(Taken { value: Type::VArray(Box::new(tp), None), rest: behind.skip(1) })
        } else {
            match value(behind, scope, true) {
                Err(fault) => Err(fault),
                Ok(size) => match expected(
                    size.rest,
                    TokenView::Bracket(Bracket::RightTriangle),
                    "Expected variadic array closing bracket"@,
                    "Expected variadic array closing bracket"@,
                    Complaint::Unexpected,
                ) {
                    Err(fault) => Err(fault),
                    Ok(rest) => Ok(Taken { value: Type::VArray(Box::new(tp), Some(size.value)), rest }),
                },
            }
        }
    } else if rest[0]@ == TokenView::Bracket(Bracket::LeftSquare) {
        match value(rest.skip(1), scope, true) {
            Err(fault) => Err(fault),
            Ok(size) => match expected(
                size.rest,
                TokenView::Bracket(Bracket::RightSquare),
                "Expected array closing bracket"@,
                "Expected array closing bracket"@,
                Complaint::Unexpected,
            ) {
                Err(fault) => Err(fault),
                Ok(rest) => Ok(Taken { value: Type::Array(Box::new(tp), size.value), rest }),
            },
        }
    } else {
        Ok(Taken { value: tp, rest })
    }
}

pub fn parse_array_type(handle: &mut Handle, tp: Type) -> (result: Result<Type>)
    requires
        old(handle).wf(),
    ensures
        final(handle).wf(),
        final(handle).scope() == old(handle).scope(),
        took(result, array_type(old(handle).rest(), old(handle).scope(), tp), final(handle).rest()),
        result is Ok ==> final(handle).rest().len() <= old(handle).rest().len(),
{
    match handle.tokens.next() {
        None => Ok(tp),
        Some(t) => match t {
            Token::Bracket(Bracket::LeftTriangle) => match handle.tokens.next() {
                None => Error::unexpected_eof(
                    String::from_str("Expected variadic array closing bracket or size hint"),
                ),
                Some(t) => match t {
                    Token::Bracket(Bracket::RightTriangle) => Ok(Type::VArray(Box::new(tp), None)),
                    t => {
                        handle.tokens.push_back(t);
                        match parse_value_condition(handle, true) {
                            Err(error) => Err(error),
                            Ok(v) => match expect(
                                handle,
                                &Token::Bracket(Bracket::RightTriangle),
                                "Expected variadic array closing bracket",
                                "Expected variadic array closing bracket",
                                Complaint::Unexpected,
                            ) {
                                Err(error) => Err(error),
                                Ok(_) => Ok(Type::VArray(Box::new(tp), Some(v))),
                            },
                        }
                    },
                },
            },
            Token::Bracket(Bracket::LeftSquare) => match parse_value_condition(handle, true) {
                Err(error) => Err(error),
                Ok(v) => match expect(
                    handle,
                    &Token::Bracket(Bracket::RightSquare),
                    "Expected array closing bracket",
                    "Expected array closing bracket",
                    Complaint::Unexpected,
                ) {
                    Err(error) => Err(error),
                    Ok(_) => Ok(Type::Array(Box::new(tp), v)),
                },
            },
            t => {
                handle.tokens.push_back(t);
                Ok(tp)
            },
        },
    }
}

/// A declaration: a type by its name, the declared name, and an array
/// bound, which belongs to the declared name.
pub open spec fn declaration(rest: Seq<Token>, scope: Scope) -> std::result::Result<Taken<(String, Type)>, Fault> {
    match type_identifier(rest, scope) {
        Err(fault) => Err(fault),
        Ok(tp) => match named(
            tp.rest,
            "Expected declaration identifier"@,
            "Expected declaration identifier"@,
            Complaint::Unexpected,
        ) {
            Err(fault) => Err(fault),
            Ok(name) => match array_type(name.rest, scope, tp.value) {
                Err(fault) => Err(fault),
                Ok(tp) => Ok(Taken { value: (name.value, tp.value), rest: tp.rest }),
            },
        },
    }
}

pub fn parse_declaration(handle: &mut Handle) -> (result: Result<(String, Type)>)
    requires
        old(handle).wf(),
    ensures
        final(handle).wf(),
        final(handle).scope() == old(handle).scope(),
        took(result, declaration(old(handle).rest(), old(handle).scope()), final(handle).rest()),
        result is Ok ==> final(handle).rest().len() < old(handle).rest().len(),
{
    match parse_type_identifier(handle) {
        Err(error) => Err(error),
        Ok(tp) => match expect_name(
            handle,
            "Expected declaration identifier",
            "Expected declaration identifier",
            Complaint::Unexpected,
        ) {
            Err(error) => Err(error),
            Ok(name) => match parse_array_type(handle, tp) {
                Err(error) => Err(error),
                Ok(tp) => Ok((name, tp)),
            },
        },
    }
}

/// A type: by its name, with the array bound that follows.
pub open spec fn full_type(rest: Seq<Token>, scope: Scope) -> std::result::Result<Taken<Type>, Fault> {
    match type_identifier(rest, scope) {
        Err(fault) => Err(fault),
        Ok(tp) => array_type(tp.rest, scope, tp.value),
    }
}

pub fn parse_type(handle: &mut Handle) -> (result: Result<Type>)
    requires
        old(handle).wf(),
    ensures
        final(handle).wf(),
        final(handle).scope() == old(handle).scope(),
        took(result, full_type(old(handle).rest(), old(handle).scope()), final(handle).rest()),
        result is Ok ==> final(handle).rest().len() < old(handle).rest().len(),
{
    match parse_type_identifier(handle) {
        Err(error) => Err(error),
        Ok(tp) => parse_array_type(handle, tp),
    }
}

/// Whether a result is what was to be parsed, with `rest` behind it and
/// `scope` left.
pub open spec fn parsed<T>(
    result: Result<T>,
    wanted: std::result::Result<Parsed<T>, Fault>,
    rest: Seq<Token>,
    scope: Scope,
) -> bool {
    match result {
        Ok(v) => wanted == Ok::<Parsed<T>, Fault>(Parsed { value: v, rest, scope }),
        Err(error) => wanted == Err::<Parsed<T>, Fault>(error@),
    }
}

/// Whether the separator comes next.
pub open spec fn separated(rest: Seq<Token>, separator: Separator) -> bool {
    rest.len() > 0 && rest[0]@ == TokenView::Separator(separator)
}

/// Whether the closing curly bracket comes next.
pub open spec fn closing(rest: Seq<Token>) -> bool {
    rest.len() > 0 && rest[0]@ == TokenView::Bracket(Bracket::RightCurly)
}

/// Reads the token, if it comes next.
pub fn take_token(handle: &mut Handle, wanted: &Token) -> (taken: bool)
    requires
        old(handle).wf(),
    ensures
        final(handle).wf(),
        final(handle).scope() == old(handle).scope(),
        taken == (old(handle).rest().len() > 0 && old(handle).rest()[0]@ == wanted@),
        final(handle).rest() == if taken {
            old(handle).rest().skip(1)
        } else {
            old(handle).rest()
        },
{
    match handle.tokens.next() {
        None => false,
        Some(t) => {
            if same_token(&t, wanted) {
                true
            } else {
                handle.tokens.push_back(t);
                false
            }
        },
    }
}

/// Says whether the token comes next, and reads nothing.
pub fn peek_token(handle: &mut Handle, wanted: &Token) -> (there: bool)
    requires
        old(handle).wf(),
    ensures
        final(handle).wf(),
        final(handle).scope() == old(handle).scope(),
        there == (old(handle).rest().len() > 0 && old(handle).rest()[0]@ == wanted@),
        final(handle).rest() == old(handle).rest(),
{
    match handle.tokens.next() {
        None => false,
        Some(t) => {
            let there = same_token(&t, wanted);
            handle.tokens.push_back(t);
            there
        },
    }
}

/// Says whether any token is left, and reads nothing.
pub fn at_end(handle: &mut Handle) -> (ended: bool)
    requires
        old(handle).wf(),
    ensures
        final(handle).wf(),
        final(handle).scope() == old(handle).scope(),
        ended == (old(handle).rest().len() == 0),
        final(handle).rest() == old(handle).rest(),
{
    match handle.tokens.next() {
        None => true,
        Some(t) => {
            handle.tokens.push_back(t);
            false
        },
    }
}

/// The scope with one more tag, which stands for `number`.
pub open spec fn tagged(scope: Scope, name: Seq<char>, number: i64) -> Scope {
    Scope {
        namespace: scope.namespace.insert(name),
        values: scope.values.insert(name, number),
        last_tag: Some(number),
        ..scope
    }
}

/// One tag of an enum: a name that is new to the module, with the value
/// that is assigned to it, if one is. The name then stands for the number
/// of that value, or for the number that follows the tag before it.
pub open spec fn enum_item(rest: Seq<Token>, scope: Scope) -> std::result::Result<
    Parsed<(String, Option<Value>)>,
    Fault,
> {
    match named(
        rest,
        "Expected enum item identifier"@,
        "Expected enum item identifier"@,
        Complaint::NotClosed,
    ) {
        Err(fault) => Err(fault),
        Ok(name) => if scope.namespace.contains(name.value@) {
            Err(Fault::IdentifierRedefined("Enum identifier \""@ + name.value@ + "\" already exists"@))
        } else {
            if name.rest.len() > 0 && name.rest[0]@ == TokenView::Operator(Operator::Assign) {
                match value(name.rest.skip(1), scope, false) {
                    Err(fault) => Err(fault),
                    Ok(v) => Ok(
                        Parsed {
                            value: (name.value, Some(v.value)),
                            rest: v.rest,
                            scope: tagged(scope, name.value@, number_of(scope, v.value)),
                        },
                    ),
                }
            } else {
                Ok(
                    Parsed {
                        value: (name.value, None),
                        rest: name.rest,
                        scope: tagged(scope, name.value@, implied_number(scope.last_tag)),
                    },
                )
            }
        },
    }
}

pub fn parse_enum_item(handle: &mut Handle) -> (result: Result<(String, Option<Value>)>)
    requires
        old(handle).wf(),
    ensures
        final(handle).wf(),
        parsed(result, enum_item(old(handle).rest(), old(handle).scope()), final(handle).rest(), final(handle).scope()),
        result is Ok ==> final(handle).rest().len() < old(handle).rest().len(),
{
    match expect_name(
        handle,
        "Expected enum item identifier",
        "Expected enum item identifier",
        Complaint::NotClosed,
    ) {
        Err(error) => Err(error),
        Ok(id) => {
            if has_name(&handle.namespace, id.as_str()) {
                return Error::identifier_redefined(cat3("Enum identifier \"", id.as_str(), "\" already exists"));
            }
            let v = if take_token(handle, &Token::Operator(Operator::Assign)) {
                match parse_value(handle) {
                    Err(error) => {
                        return Err(error);
                    },
                    Ok(v) => Some(v),
                }
            } else {
                None
            };
            let number = match &v {
                Some(v) => value_number(handle, v),
                None => match handle.last_tag {
                    None => 0,
                    Some(n) => if n < i64::MAX {
                        n + 1
                    } else {
                        n
                    },
                },
            };
            add_name(&mut handle.namespace, id.clone());
            add_number(&mut handle.values, id.clone(), number);
            handle.last_tag = Some(number);
            Ok((id, v))
        },
    }
}

/// The tags of an enum behind those read already: tags with commas
/// between them; a comma may stand behind the last tag.
pub open spec fn enum_items(rest: Seq<Token>, scope: Scope, items: Seq<(String, Option<Value>)>) -> std::result::Result<
    Parsed<Seq<(String, Option<Value>)>>,
    Fault,
>
    decreases rest.len(),
{
    match enum_item(rest, scope) {
        Err(fault) => Err(fault),
        Ok(item) => {
            let items = items.push(item.value);
            if separated(item.rest, Separator::Comma) && !closing(item.rest.skip(1)) && item.rest.skip(
                1,
            ).len() < rest.len() {
                enum_items(item.rest.skip(1), item.scope, items)
            } else if separated(item.rest, Separator::Comma) {
                Ok(Parsed { value: items, rest: item.rest.skip(1), scope: item.scope })
            } else {
                Ok(Parsed { value: items, rest: item.rest, scope: item.scope })
            }
        },
    }
}

/// The tags of an enum.
pub open spec fn enum_body(rest: Seq<Token>, scope: Scope) -> std::result::Result<
    Parsed<Seq<(String, Option<Value>)>>,
    Fault,
> {
    enum_items(rest, Scope { last_tag: None, ..scope }, Seq::empty())
}

#[verifier::loop_isolation(false)]
pub fn parse_enum_body(handle: &mut Handle) -> (result: Result<Enum>)
    requires
        old(handle).wf(),
    ensures
        final(handle).wf(),
        match result {
            Ok(en) => enum_body(old(handle).rest(), old(handle).scope()) == Ok::<
                Parsed<Seq<(String, Option<Value>)>>,
                Fault,
            >(Parsed { value: en@, rest: final(handle).rest(), scope: final(handle).scope() }),
            Err(error) => enum_body(old(handle).rest(), old(handle).scope()) == Err::<
                Parsed<Seq<(String, Option<Value>)>>,
                Fault,
            >(error@),
        },
        result is Ok ==> final(handle).rest().len() < old(handle).rest().len(),
{
    let mut en = new_enum();
    handle.last_tag = None;
    loop
        invariant
            handle.wf(),
            enum_body(old(handle).rest(), old(handle).scope()) == enum_items(
                handle.rest(),
                handle.scope(),
                en@,
            ),
            handle.rest().len() <= old(handle).rest().len(),
        decreases handle.rest().len(),
    {
        match parse_enum_item(handle) {
            Err(error) => {
                return Err(error);
            },
            Ok(item) => {
                en.push(item);
                if take_token(handle, &Token::Separator(Separator::Comma)) {
                    if peek_token(handle, &Token::Bracket(Bracket::RightCurly)) {
                        return Ok(en);
                    }
                } else {
                    return Ok(en);
                }
            },
        }
    }
}

/// The scope with one more enum.
pub open spec fn with_enum(scope: Scope, name: Seq<char>) -> Scope {
    Scope { enums: scope.enums.insert(name), last_tag: None, ..scope }
}

/// The definition of an enum, behind the word `enum`: a name that no type
/// has yet, and the tags between curly brackets.
pub open spec fn enum_definition(rest: Seq<Token>, scope: Scope) -> std::result::Result<
    Parsed<(String, Seq<(String, Option<Value>)>)>,
    Fault,
> {
    match named(
        rest,
        "No enum identifier was provided"@,
        "Expected enum identifier"@,
        Complaint::Unexpected,
    ) {
        Err(fault) => Err(fault),
        Ok(name) => if scope.type_taken(name.value@) {
            Err(Fault::TypeRedefined("Enum with id \""@ + name.value@ + "\" already exists"@))
        } else {
            match expected(
                name.rest,
                TokenView::Bracket(Bracket::LeftCurly),
                "No enum body"@,
                "Expected enum body \"{\""@,
                Complaint::Unexpected,
            ) {
                Err(fault) => Err(fault),
                Ok(rest) => match enum_body(rest, scope) {
                    Err(fault) => Err(fault),
                    Ok(body) => match expected(
                        body.rest,
                        TokenView::Bracket(Bracket::RightCurly),
                        "Enum definition wasn't finished"@,
                        "Enum definition wasn't finished"@,
                        Complaint::Unexpected,
                    ) {
                        Err(fault) => Err(fault),
                        Ok(rest) => match expected(
                            rest,
                            TokenView::Separator(Separator::Semicolon),
                            "Enum definition wasn't finished"@,
                            "Enum definition wasn't finished"@,
                            Complaint::NotClosed,
                        ) {
                            Err(fault) => Err(fault),
                            Ok(rest) => Ok(
                                Parsed {
                                    value: (name.value, body.value),
                                    rest,
                                    scope: with_enum(body.scope, name.value@),
                                },
                            ),
                        },
                    },
                },
            }
        },
    }
}

pub fn parse_enum_definition(handle: &mut Handle) -> (result: Result<(String, Enum)>)
    requires
        old(handle).wf(),
    ensures
        final(handle).wf(),
        match result {
            Ok(def) => enum_definition(old(handle).rest(), old(handle).scope()) == Ok::<
                Parsed<(String, Seq<(String, Option<Value>)>)>,
                Fault,
            >(Parsed { value: (def.0, def.1@), rest: final(handle).rest(), scope: final(handle).scope() }),
            Err(error) => enum_definition(old(handle).rest(), old(handle).scope()) == Err::<
                Parsed<(String, Seq<(String, Option<Value>)>)>,
                Fault,
            >(error@),
        },
        result is Ok ==> final(handle).rest().len() < old(handle).rest().len(),
{
    let id = match expect_name(
        handle,
        "No enum identifier was provided",
        "Expected enum identifier",
        Complaint::Unexpected,
    ) {
        Err(error) => {
            return Err(error);
        },
        Ok(id) => id,
    };
    if type_taken(handle, id.as_str()) {
        return Error::type_redefined(cat3("Enum with id \"", id.as_str(), "\" already exists"));
    }
    match expect(
        handle,
        &Token::Bracket(Bracket::LeftCurly),
        "No enum body",
        "Expected enum body \"{\"",
        Complaint::Unexpected,
    ) {
        Err(error) => {
            return Err(error);
        },
        Ok(_) => {},
    }
    let en = match parse_enum_body(handle) {
        Err(error) => {
            return Err(error);
        },
        Ok(en) => en,
    };
    match expect(
        handle,
        &Token::Bracket(Bracket::RightCurly),
        "Enum definition wasn't finished",
        "Enum definition wasn't finished",
        Complaint::Unexpected,
    ) {
        Err(error) => {
            return Err(error);
        },
        Ok(_) => {},
    }
    match expect(
        handle,
        &Token::Separator(Separator::Semicolon),
        "Enum definition wasn't finished",
        "Enum definition wasn't finished",
        Complaint::NotClosed,
    ) {
        Err(error) => {
            return Err(error);
        },
        Ok(_) => {},
    }
    add_name(&mut handle.defined_types.enums, id.clone());
    handle.last_tag = None;
    Ok((id, en))
}

/// The definition of a constant, behind the word `const`: a name that is
/// new to the module, and the value assigned to it. The name then stands
/// for the number of that value.
pub open spec fn const_definition(rest: Seq<Token>, scope: Scope) -> std::result::Result<
    Parsed<(String, Value)>,
    Fault,
> {
    match named(rest, "Expected const identifier"@, "Expected const identifier"@, Complaint::NotClosed) {
        Err(fault) => Err(fault),
        Ok(name) => if scope.namespace.contains(name.value@) {
            Err(
                Fault::IdentifierRedefined(
                    "Constant identifier \""@ + name.value@ + "\" already exists"@,
                ),
            )
        } else {
            match expected(
                name.rest,
                TokenView::Operator(Operator::Assign),
                "Expected assign sign"@,
                "Expected assign sign"@,
                Complaint::Unexpected,
            ) {
                Err(fault) => Err(fault),
                Ok(rest) => match value(rest, scope, false) {
                    Err(fault) => Err(fault),
                    Ok(v) => match expected(
                        v.rest,
                        TokenView::Separator(Separator::Semicolon),
                        "Const definition wasn't finished"@,
                        "Const definition wasn't finished"@,
                        Complaint::NotClosed,
                    ) {
                        Err(fault) => Err(fault),
                        Ok(rest) => Ok(
                            Parsed {
                                value: (name.value, v.value),
                                rest,
                                scope: Scope {
                                    namespace: scope.namespace.insert(name.value@),
                                    values: scope.values.insert(name.value@, number_of(scope, v.value)),
                                    ..scope
                                },
                            },
                        ),
                    },
                },
            }
        },
    }
}

pub fn parse_const_definition(handle: &mut Handle) -> (result: Result<(String, Value)>)
    requires
        old(handle).wf(),
    ensures
        final(handle).wf(),
        parsed(
            result,
            const_definition(old(handle).rest(), old(handle).scope()),
            final(handle).rest(),
            final(handle).scope(),
        ),
        result is Ok ==> final(handle).rest().len() < old(handle).rest().len(),
        result is Err ==> final(handle).scope() == old(handle).scope(),
{
    let id = match expect_name(
        handle,
        "Expected const identifier",
        "Expected const identifier",
        Complaint::NotClosed,
    ) {
        Err(error) => {
            return Err(error);
        },
        Ok(id) => id,
    };
    if has_name(&handle.namespace, id.as_str()) {
        return Error::identifier_redefined(cat3("Constant identifier \"", id.as_str(), "\" already exists"));
    }
    match expect(
        handle,
        &Token::Operator(Operator::Assign),
        "Expected assign sign",
        "Expected assign sign",
        Complaint::Unexpected,
    ) {
        Err(error) => {
            return Err(error);
        },
        Ok(_) => {},
    }
    let v = match parse_value(handle) {
        Err(error) => {
            return Err(error);
        },
        Ok(v) => v,
    };
    match expect(
        handle,
        &Token::Separator(Separator::Semicolon),
        "Const definition wasn't finished",
        "Const definition wasn't finished",
        Complaint::NotClosed,
    ) {
        Err(error) => {
            return Err(error);
        },
        Ok(_) => {},
    }
    let number = value_number(handle, &v);
    add_name(&mut handle.namespace, id.clone());
    add_number(&mut handle.values, id.clone(), number);
    Ok((id, v))
}

/// The definition of a typedef, behind the word `typedef`: a declaration
/// of a name that is new to the module and that no type has yet.
pub open spec fn typedef_definition(rest: Seq<Token>, scope: Scope) -> std::result::Result<
    Parsed<(String, Type)>,
    Fault,
> {
    match declaration(rest, scope) {
        Err(fault) => Err(fault),
        Ok(decl) => if scope.namespace.contains(decl.value.0@) || scope.type_taken(decl.value.0@) {
            Err(Fault::TypeRedefined("Type with identifier "@ + decl.value.0@ + " already exists"@))
        } else {
            match expected(
                decl.rest,
                TokenView::Separator(Separator::Semicolon),
                "Const definition wasn't finished"@,
                "Const definition wasn't finished"@,
                Complaint::NotClosed,
            ) {
                Err(fault) => Err(fault),
                Ok(rest) => Ok(
                    Parsed {
                        value: decl.value,
                        rest,
                        scope: Scope {
                            namespace: scope.namespace.insert(decl.value.0@),
                            typedefs: scope.typedefs.insert(decl.value.0@),
                            ..scope
                        },
                    },
                ),
            }
        },
    }
}

pub fn parse_typedef_definition(handle: &mut Handle) -> (result: Result<(String, Type)>)
    requires
        old(handle).wf(),
    ensures
        final(handle).wf(),
        parsed(
            result,
            typedef_definition(old(handle).rest(), old(handle).scope()),
            final(handle).rest(),
            final(handle).scope(),
        ),
        result is Ok ==> final(handle).rest().len() < old(handle).rest().len(),
        result is Err ==> final(handle).scope() == old(handle).scope(),
{
    let decl = match parse_declaration(handle) {
        Err(error) => {
            return Err(error);
        },
        Ok(decl) => decl,
    };
    if has_name(&handle.namespace, decl.0.as_str()) || type_taken(handle, decl.0.as_str()) {
        return Error::type_redefined(cat3("Type with identifier ", decl.0.as_str(), " already exists"));
    }
    match expect(
        handle,
        &Token::Separator(Separator::Semicolon),
        "Const definition wasn't finished",
        "Const definition wasn't finished",
        Complaint::NotClosed,
    ) {
        Err(error) => {
            return Err(error);
        },
        Ok(_) => {},
    }
    add_name(&mut handle.namespace, decl.0.clone());
    add_name(&mut handle.defined_types.typedefs, decl.0.clone());
    Ok(decl)
}

/// The fields of a structure behind those read already: declarations with
/// a semicolon behind each, up to the closing bracket; no name twice.
pub open spec fn struct_fields_from(rest: Seq<Token>, scope: Scope, fields: Seq<(String, Type)>) -> std::result::Result<
    Taken<Seq<(String, Type)>>,
    Fault,
>
    decreases rest.len(),
{
    match declaration(rest, scope) {
        Err(fault) => Err(fault),
        Ok(decl) => if crate::rpc::has_name(fields, decl.value.0@) {
            Err(
                Fault::StructureFieldRedefined(
                    "Field with identifier \""@ + decl.value.0@ + "\" already exists"@,
                ),
            )
        } else {
            match expected(
                decl.rest,
                TokenView::Separator(Separator::Semicolon),
                "Structure field declaraion wasn't finished"@,
                "Structure field declaraion wasn't finished"@,
                Complaint::Unexpected,
            ) {
                Err(fault) => Err(fault),
                Ok(behind) => if behind.len() == 0 || closing(behind) || behind.len() >= rest.len() {
                    Ok(Taken { value: fields.push(decl.value), rest: behind })
                } else {
                    struct_fields_from(behind, scope, fields.push(decl.value))
                },
            }
        },
    }
}

/// The fields of a structure.
pub open spec fn struct_body(rest: Seq<Token>, scope: Scope) -> std::result::Result<
    Taken<Seq<(String, Type)>>,
    Fault,
> {
    struct_fields_from(rest, scope, Seq::empty())
}

#[verifier::loop_isolation(false)]
pub fn parse_struct_body(handle: &mut Handle) -> (result: Result<Struct>)
    requires
        old(handle).wf(),
    ensures
        final(handle).wf(),
        final(handle).scope() == old(handle).scope(),
        match result {
            Ok(st) => struct_body(old(handle).rest(), old(handle).scope()) == Ok::<
                Taken<Seq<(String, Type)>>,
                Fault,
            >(Taken { value: struct_fields(st), rest: final(handle).rest() }),
            Err(error) => struct_body(old(handle).rest(), old(handle).scope()) == Err::<
                Taken<Seq<(String, Type)>>,
                Fault,
            >(error@),
        },
        result is Ok ==> final(handle).rest().len() < old(handle).rest().len(),
{
    let mut st = new_struct();
    loop
        invariant
            handle.wf(),
            handle.scope() == old(handle).scope(),
            struct_body(old(handle).rest(), old(handle).scope()) == struct_fields_from(
                handle.rest(),
                handle.scope(),
                struct_fields(st),
            ),
            handle.rest().len() <= old(handle).rest().len(),
        decreases handle.rest().len(),
    {
        match parse_declaration(handle) {
            Err(error) => {
                return Err(error);
            },
            Ok(decl) => {
                if struct_contains(&st, &decl.0) {
                    return Error::structure_field_redefined(
                        cat3("Field with identifier \"", decl.0.as_str(), "\" already exists"),
                    );
                }
                struct_insert(&mut st, decl.0, decl.1);
                match expect(
                    handle,
                    &Token::Separator(Separator::Semicolon),
                    "Structure field declaraion wasn't finished",
                    "Structure field declaraion wasn't finished",
                    Complaint::Unexpected,
                ) {
                    Err(error) => {
                        return Err(error);
                    },
                    Ok(_) => {},
                }
                if at_end(handle) {
                    return Ok(st);
                }
                if peek_token(handle, &Token::Bracket(Bracket::RightCurly)) {
                    return Ok(st);
                }
            },
        }
    }
}

/// The definition of a structure, behind the word `struct`: a name that
/// no type has yet, and what follows it. Meanwhile the structure is
/// pending: it may be pointed to, and not held.
pub open spec fn struct_definition(rest: Seq<Token>, scope: Scope) -> std::result::Result<
    Parsed<(String, Seq<(String, Type)>)>,
    Fault,
> {
    match named(
        rest,
        "No struct identifier was provided"@,
        "Expected struct identifier"@,
        Complaint::Unexpected,
    ) {
        Err(fault) => Err(fault),
        Ok(name) => if scope.type_taken(name.value@) {
            Err(Fault::TypeRedefined("Struct with id \""@ + name.value@ + "\" already exists"@))
        } else {
            match struct_pending(name.rest, Scope { pending_struct: Some(name.value@), ..scope }) {
                Err(fault) => Err(fault),
                Ok(st) => Ok(
                    Parsed {
                        value: (name.value, st.value),
                        rest: st.rest,
                        scope: Scope {
                            structs: scope.structs.insert(name.value@),
                            pending_struct: None,
                            ..scope
                        },
                    },
                ),
            }
        },
    }
}

/// Reads a structure while it is pending.
fn parse_pending_struct(handle: &mut Handle, id: &String) -> (result: Result<Struct>)
    requires
        old(handle).wf(),
        old(handle).scope().pending_struct == Some(id@),
    ensures
        final(handle).wf(),
        final(handle).scope() == old(handle).scope(),
        match result {
            Ok(st) => struct_pending(old(handle).rest(), old(handle).scope()) == Ok::<
                Taken<Seq<(String, Type)>>,
                Fault,
            >(Taken { value: struct_fields(st), rest: final(handle).rest() }),
            Err(error) => struct_pending(old(handle).rest(), old(handle).scope()) == Err::<
                Taken<Seq<(String, Type)>>,
                Fault,
            >(error@),
        },
        result is Ok ==> final(handle).rest().len() < old(handle).rest().len(),
{
    match expect(
        handle,
        &Token::Bracket(Bracket::LeftCurly),
        "No struct body",
        "Expected struct body \"{\"",
        Complaint::Unexpected,
    ) {
        Err(error) => {
            return Err(error);
        },
        Ok(_) => {},
    }
    let st = match parse_struct_body(handle) {
        Err(error) => {
            return Err(error);
        },
        Ok(st) => st,
    };
    match expect(
        handle,
        &Token::Bracket(Bracket::RightCurly),
        "Struct definition wasn't finished",
        "Struct definition wasn't finished",
        Complaint::Unexpected,
    ) {
        Err(error) => {
            return Err(error);
        },
        Ok(_) => {},
    }
    match expect(
        handle,
        &Token::Separator(Separator::Semicolon),
        "Struct definition wasn't finished",
        "Struct definition wasn't finished",
        Complaint::NotClosed,
    ) {
        Err(error) => {
            return Err(error);
        },
        Ok(_) => {},
    }
    Ok(st)
}

/// What follows the name of a structure: the fields between curly
/// brackets, and a semicolon.
pub open spec fn struct_pending(rest: Seq<Token>, scope: Scope) -> std::result::Result<
    Taken<Seq<(String, Type)>>,
    Fault,
> {
    match expected(
        rest,
        TokenView::Bracket(Bracket::LeftCurly),
        "No struct body"@,
        "Expected struct body \"{\""@,
        Complaint::Unexpected,
    ) {
        Err(fault) => Err(fault),
        Ok(rest) => match struct_body(rest, scope) {
            Err(fault) => Err(fault),
            Ok(body) => match expected(
                body.rest,
                TokenView::Bracket(Bracket::RightCurly),
                "Struct definition wasn't finished"@,
                "Struct definition wasn't finished"@,
                Complaint::Unexpected,
            ) {
                Err(fault) => Err(fault),
                Ok(rest) => match expected(
                    rest,
                    TokenView::Separator(Separator::Semicolon),
                    "Struct definition wasn't finished"@,
                    "Struct definition wasn't finished"@,
                    Complaint::NotClosed,
                ) {
                    Err(fault) => Err(fault),
                    Ok(rest) => Ok(Taken { value: body.value, rest }),
                },
            },
        },
    }
}

pub fn parse_struct_definition(handle: &mut Handle) -> (result: Result<(String, Struct)>)
    requires
        old(handle).wf(),
    ensures
        final(handle).wf(),
        match result {
            Ok(def) => struct_definition(old(handle).rest(), old(handle).scope()) == Ok::<
                Parsed<(String, Seq<(String, Type)>)>,
                Fault,
            >(
                Parsed {
                    value: (def.0, struct_fields(def.1)),
                    rest: final(handle).rest(),
                    scope: final(handle).scope(),
                },
            ),
            Err(error) => struct_definition(old(handle).rest(), old(handle).scope()) == Err::<
                Parsed<(String, Seq<(String, Type)>)>,
                Fault,
            >(error@),
        },
        result is Err ==> final(handle).scope() == (Scope { pending_struct: None, ..old(handle).scope() }),
        result is Ok ==> final(handle).rest().len() < old(handle).rest().len(),
{
    let id = match expect_name(
        handle,
        "No struct identifier was provided",
        "Expected struct identifier",
        Complaint::Unexpected,
    ) {
        Err(error) => {
            handle.pending_types.structs = None;
            return Err(error);
        },
        Ok(id) => id,
    };
    if type_taken(handle, id.as_str()) {
        handle.pending_types.structs = None;
        return Error::type_redefined(cat3("Struct with id \"", id.as_str(), "\" already exists"));
    }
    handle.pending_types.structs = Some(id.clone());
    let out = parse_pending_struct(handle, &id);
    handle.pending_types.structs = None;
    match out {
        Err(error) => Err(error),
        Ok(st) => {
            add_name(&mut handle.defined_types.structs, id.clone());
            Ok((id, st))
        },
    }
}

/// Whether `void` alone comes next, as the declaration of an arm that
/// holds nothing.
pub open spec fn bare_void(rest: Seq<Token>) -> bool {
    rest.len() > 1 && rest[0]@ == TokenView::Type(crate::rpc::token::Type::Void) && rest[1]@
        == TokenView::Separator(Separator::Semicolon)
}

/// The declaration of an arm of a union: a declaration, or `void` alone,
/// which declares the type without values under no name.
pub open spec fn arm_declaration(rest: Seq<Token>, scope: Scope) -> std::result::Result<
    Taken<(Seq<char>, Type)>,
    Fault,
> {
    if bare_void(rest) {
        Ok(Taken { value: (Seq::empty(), Type::Void), rest: rest.skip(1) })
    } else {
        match declaration(rest, scope) {
            Err(fault) => Err(fault),
            Ok(decl) => Ok(Taken { value: (decl.value.0@, decl.value.1), rest: decl.rest }),
        }
    }
}

pub fn parse_arm_declaration(handle: &mut Handle) -> (result: Result<(String, Type)>)
    requires
        old(handle).wf(),
    ensures
        final(handle).wf(),
        final(handle).scope() == old(handle).scope(),
        match result {
            Ok(decl) => arm_declaration(old(handle).rest(), old(handle).scope()) == Ok::<
                Taken<(Seq<char>, Type)>,
                Fault,
            >(Taken { value: (decl.0@, decl.1), rest: final(handle).rest() }),
            Err(error) => arm_declaration(old(handle).rest(), old(handle).scope()) == Err::<
                Taken<(Seq<char>, Type)>,
                Fault,
            >(error@),
        },
        result is Ok ==> final(handle).rest().len() < old(handle).rest().len(),
{
    let bare = match handle.tokens.ahead(0) {
        Some(first) => same_token(first, &Token::Type(crate::rpc::token::Type::Void)) && match handle.tokens.ahead(
            1,
        ) {
            Some(second) => same_token(second, &Token::Separator(Separator::Semicolon)),
            None => false,
        },
        None => false,
    };
    if bare {
        let _ = handle.tokens.next();
        Ok((String::new(), Type::Void))
    } else {
        parse_declaration(handle)
    }
}

/// An arm of a union as it is read.
pub enum UnionItem {
    Regular(Value, (String, Type)),
    Default(String, Type),
}

/// What an arm of a union holds.
pub enum UnionItemView {
    Regular(Value, (Seq<char>, Type)),
    Default(Seq<char>, Type),
}

impl View for UnionItem {
    type V = UnionItemView;

    open spec fn view(&self) -> UnionItemView {
        match self {
            UnionItem::Regular(v, decl) => UnionItemView::Regular(*v, (decl.0@, decl.1)),
            UnionItem::Default(name, tp) => UnionItemView::Default(name@, *tp),
        }
    }
}

/// One arm of a union: `case`, a value and a colon, or `default` and a
/// colon, and then the declaration of the arm.
pub open spec fn union_item(rest: Seq<Token>, scope: Scope) -> std::result::Result<
    Taken<UnionItemView>,
    Fault,
> {
    if rest.len() == 0 {
        Err(Fault::UnexpectedEOF("Matching value expected"@))
    } else if rest[0]@ == TokenView::Keyword(Keyword::Case) {
        match value(rest.skip(1), scope, false) {
            Err(fault) => Err(fault),
            Ok(v) => match expected(
                v.rest,
                TokenView::Separator(Separator::Colon),
                "Colon expected"@,
                "Colon expected"@,
                Complaint::Unexpected,
            ) {
                Err(fault) => Err(fault),
                Ok(rest) => match arm_declaration(rest, scope) {
                    Err(fault) => Err(fault),
                    Ok(decl) => Ok(
                        Taken { value: UnionItemView::Regular(v.value, decl.value), rest: decl.rest },
                    ),
                },
            },
        }
    } else if rest[0]@ == TokenView::Keyword(Keyword::Default) {
        match expected(
            rest.skip(1),
            TokenView::Separator(Separator::Colon),
            "Colon expected"@,
            "Colon expected"@,
            Complaint::Unexpected,
        ) {
            Err(fault) => Err(fault),
            Ok(rest) => match arm_declaration(rest, scope) {
                Err(fault) => Err(fault),
                Ok(decl) => Ok(
                    Taken { value: UnionItemView::Default(decl.value.0, decl.value.1), rest: decl.rest },
                ),
            },
        }
    } else {
        Err(Fault::UnexpectedToken("Matching value expected"@, rest[0]@))
    }
}

pub fn parse_union_item(handle: &mut Handle) -> (result: Result<UnionItem>)
    requires
        old(handle).wf(),
    ensures
        final(handle).wf(),
        final(handle).scope() == old(handle).scope(),
        match result {
            Ok(item) => union_item(old(handle).rest(), old(handle).scope()) == Ok::<
                Taken<UnionItemView>,
                Fault,
            >(Taken { value: item@, rest: final(handle).rest() }),
            Err(error) => union_item(old(handle).rest(), old(handle).scope()) == Err::<
                Taken<UnionItemView>,
                Fault,
            >(error@),
        },
        result is Ok ==> final(handle).rest().len() < old(handle).rest().len(),
{
    match handle.tokens.next() {
        None => Error::unexpected_eof(String::from_str("Matching value expected")),
        Some(t) => match t {
            Token::Keyword(Keyword::Case) => {
                let v = match parse_value(handle) {
                    Err(error) => {
                        return Err(error);
                    },
                    Ok(v) => v,
                };
                match expect(
                    handle,
                    &Token::Separator(Separator::Colon),
                    "Colon expected",
                    "Colon expected",
                    Complaint::Unexpected,
                ) {
                    Err(error) => {
                        return Err(error);
                    },
                    Ok(_) => {},
                }
                match parse_arm_declaration(handle) {
                    Err(error) => Err(error),
                    Ok(decl) => Ok(UnionItem::Regular(v, decl)),
                }
            },
            Token::Keyword(Keyword::Default) => {
                match expect(
                    handle,
                    &Token::Separator(Separator::Colon),
                    "Colon expected",
                    "Colon expected",
                    Complaint::Unexpected,
                ) {
                    Err(error) => {
                        return Err(error);
                    },
                    Ok(_) => {},
                }
                match parse_arm_declaration(handle) {
                    Err(error) => Err(error),
                    Ok(decl) => Ok(UnionItem::Default(decl.0, decl.1)),
                }
            },
            t => Error::unexpected_token(String::from_str("Matching value expected"), t),
        },
    }
}

/// The arms of a union as they are read: the arms under values, and the
/// default arm.
pub struct Arms {
    pub arms: Seq<(Value, (Seq<char>, Type))>,
    pub default: Option<(Seq<char>, Type)>,
}

/// The arms of a union behind those read already: each with a semicolon
/// behind it, no value twice and the default arm once at most, up to the
/// closing bracket.
pub open spec fn union_arms_from(
    rest: Seq<Token>,
    scope: Scope,
    arms: Seq<(Value, (Seq<char>, Type))>,
    default: Option<(Seq<char>, Type)>,
) -> std::result::Result<Taken<Arms>, Fault>
    decreases rest.len(),
{
    match union_item(rest, scope) {
        Err(fault) => Err(fault),
        Ok(item) => {
            let taken = match item.value {
                UnionItemView::Regular(v, decl) => if crate::rpc::has_value(arms, v@) {
                    Err(Fault::UnionArmRedefined(Some(v@)))
                } else {
                    Ok(Arms { arms: arms.push((v, decl)), default })
                },
                UnionItemView::Default(name, tp) => if default is Some {
                    Err(Fault::UnionArmRedefined(None))
                } else {
                    Ok(Arms { arms, default: Some((name, tp)) })
                },
            };
            match taken {
                Err(fault) => Err(fault),
                Ok(more) => match expected(
                    item.rest,
                    TokenView::Separator(Separator::Semicolon),
                    "Union arm declaraion wasn't finished"@,
                    "Union arm declaraion wasn't finished"@,
                    Complaint::Unexpected,
                ) {
                    Err(fault) => Err(fault),
                    Ok(behind) => if behind.len() == 0 || closing(behind) || behind.len() >= rest.len() {
                        Ok(Taken { value: more, rest: behind })
                    } else {
                        union_arms_from(behind, scope, more.arms, more.default)
                    },
                },
            }
        },
    }
}

/// The arms of a union.
pub open spec fn union_body(rest: Seq<Token>, scope: Scope) -> std::result::Result<Taken<Arms>, Fault> {
    union_arms_from(rest, scope, Seq::empty(), None)
}

/// The arms with the characters of their names hold a value where the
/// arms do.
pub proof fn arms_view_values(arms: Seq<(Value, (String, Type))>, value: ValueView)
    ensures
        crate::rpc::has_value(arms_view(arms), value) == crate::rpc::has_value(arms, value),
{
    if crate::rpc::has_value(arms, value) {
        let i = choose|i: int| 0 <= i < arms.len() && (#[trigger] arms[i]).0@ == value;
        assert(arms_view(arms)[i].0@ == value);
    }
    if crate::rpc::has_value(arms_view(arms), value) {
        let i = choose|i: int| 0 <= i < arms_view(arms).len() && (#[trigger] arms_view(arms)[i]).0@ == value;
        assert(arms[i].0@ == value);
    }
}

#[verifier::loop_isolation(false)]
pub fn parse_union_body(handle: &mut Handle) -> (result: Result<Union>)
    requires
        old(handle).wf(),
    ensures
        final(handle).wf(),
        final(handle).scope() == old(handle).scope(),
        match result {
            Ok(un) => union_body(old(handle).rest(), old(handle).scope()) == Ok::<Taken<Arms>, Fault>(
                Taken { value: Arms { arms: un@.arms, default: un@.default }, rest: final(handle).rest() },
            ) && un.value@ == Seq::<char>::empty() && un.switch_type == SwitchingType::Integer(
                Integer::Integer,
            ),
            Err(error) => union_body(old(handle).rest(), old(handle).scope()) == Err::<Taken<Arms>, Fault>(
                error@,
            ),
        },
        result is Ok ==> final(handle).rest().len() < old(handle).rest().len(),
{
    let mut un = new_union();
    assert(arms_view(union_arms(un.arms)) =~= Seq::<(Value, (Seq<char>, Type))>::empty());
    loop
        invariant
            handle.wf(),
            handle.scope() == old(handle).scope(),
            un.value@ == Seq::<char>::empty(),
            un.switch_type == SwitchingType::Integer(Integer::Integer),
            union_body(old(handle).rest(), old(handle).scope()) == union_arms_from(
                handle.rest(),
                handle.scope(),
                arms_view(union_arms(un.arms)),
                arm_view(un.default),
            ),
            handle.rest().len() <= old(handle).rest().len(),
        decreases handle.rest().len(),
    {
        match parse_union_item(handle) {
            Err(error) => {
                return Err(error);
            },
            Ok(item) => match item {
                UnionItem::Regular(v, decl) => {
                    proof {
                        arms_view_values(union_arms(un.arms), v@);
                    }
                    if arms_contains(&un.arms, &v) {
                        return Error::union_arm_redefined(v);
                    }
                    let ghost before = union_arms(un.arms);
                    arms_insert(&mut un.arms, v, decl);
                    assert(arms_view(union_arms(un.arms)) =~= arms_view(before).push((v, (decl.0@, decl.1))));
                },
                UnionItem::Default(name, tp) => {
                    if un.default.is_some() {
                        return Error::union_default_redefined();
                    }
                    un.default = Some((name, tp));
                },
            },
        }
        match expect(
            handle,
            &Token::Separator(Separator::Semicolon),
            "Union arm declaraion wasn't finished",
            "Union arm declaraion wasn't finished",
            Complaint::Unexpected,
        ) {
            Err(error) => {
                return Err(error);
            },
            Ok(_) => {},
        }
        if at_end(handle) {
            return Ok(un);
        }
        if peek_token(handle, &Token::Bracket(Bracket::RightCurly)) {
            return Ok(un);
        }
    }
}

/// The type that discriminates a union, if `tp` may.
pub open spec fn switching(tp: Type) -> Option<SwitchingType> {
    match tp {
        Type::Integer(i) => Some(SwitchingType::Integer(i)),
        Type::Unsigned(u) => Some(SwitchingType::Unsigned(u)),
        Type::Named(NamedType::Enum(en)) => Some(SwitchingType::Enum(en)),
        _ => None,
    }
}

/// What follows the name of a union: `switch`, the declaration of the
/// discriminant in round brackets, the arms between curly brackets, and a
/// semicolon. Only an integer or an enum discriminates.
pub open spec fn union_pending(rest: Seq<Token>, scope: Scope) -> std::result::Result<Taken<UnionView>, Fault> {
    match expected(
        rest,
        TokenView::Keyword(Keyword::Switch),
        "Keyword \"case\" expected"@,
        "Keyword \"case\" expected"@,
        Complaint::Unexpected,
    ) {
        Err(fault) => Err(fault),
        Ok(rest) => match expected(
            rest,
            TokenView::Bracket(Bracket::Left),
            "Expected \"(\""@,
            "Expected \"(\""@,
            Complaint::Unexpected,
        ) {
            Err(fault) => Err(fault),
            Ok(rest) => match declaration(rest, scope) {
                Err(fault) => Err(fault),
                Ok(decl) => match switching(decl.value.1) {
                    None => Err(Fault::NotSwitchingType(decl.value.1)),
                    Some(switch_type) => match expected(
                        decl.rest,
                        TokenView::Bracket(Bracket::Right),
                        "Expected \"(\""@,
                        "Expected \"(\""@,
                        Complaint::Unexpected,
                    ) {
                        Err(fault) => Err(fault),
                        Ok(rest) => match expected(
                            rest,
                            TokenView::Bracket(Bracket::LeftCurly),
                            "No union body"@,
                            "Expected union body \"{\""@,
                            Complaint::Unexpected,
                        ) {
                            Err(fault) => Err(fault),
                            Ok(rest) => match union_body(rest, scope) {
                                Err(fault) => Err(fault),
                                Ok(body) => match expected(
                                    body.rest,
                                    TokenView::Bracket(Bracket::RightCurly),
                                    "Union definition wasn't finished"@,
                                    "Union definition wasn't finished"@,
                                    Complaint::Unexpected,
                                ) {
                                    Err(fault) => Err(fault),
                                    Ok(rest) => match expected(
                                        rest,
                                        TokenView::Separator(Separator::Semicolon),
                                        "Union definition wasn't finished"@,
                                        "Union definition wasn't finished"@,
                                        Complaint::NotClosed,
                                    ) {
                                        Err(fault) => Err(fault),
                                        Ok(rest) => Ok(
                                            Taken {
                                                value: UnionView {
                                                    value: decl.value.0@,
                                                    switch_type,
                                                    arms: body.value.arms,
                                                    default: body.value.default,
                                                },
                                                rest,
                                            },
                                        ),
                                    },
                                },
                            },
                        },
                    },
                },
            },
        },
    }
}

fn parse_pending_union(handle: &mut Handle) -> (result: Result<Union>)
    requires
        old(handle).wf(),
    ensures
        final(handle).wf(),
        final(handle).scope() == old(handle).scope(),
        match result {
            Ok(un) => union_pending(old(handle).rest(), old(handle).scope()) == Ok::<Taken<UnionView>, Fault>(
                Taken { value: un@, rest: final(handle).rest() },
            ),
            Err(error) => union_pending(old(handle).rest(), old(handle).scope()) == Err::<
                Taken<UnionView>,
                Fault,
            >(error@),
        },
        result is Ok ==> final(handle).rest().len() < old(handle).rest().len(),
{
    match expect(
        handle,
        &Token::Keyword(Keyword::Switch),
        "Keyword \"case\" expected",
        "Keyword \"case\" expected",
        Complaint::Unexpected,
    ) {
        Err(error) => {
            return Err(error);
        },
        Ok(_) => {},
    }
    match expect(handle, &Token::Bracket(Bracket::Left), "Expected \"(\"", "Expected \"(\"", Complaint::Unexpected) {
        Err(error) => {
            return Err(error);
        },
        Ok(_) => {},
    }
    let decl = match parse_declaration(handle) {
        Err(error) => {
            return Err(error);
        },
        Ok(decl) => decl,
    };
    let stp = match decl.1 {
        Type::Integer(i) => SwitchingType::Integer(i),
        Type::Unsigned(u) => SwitchingType::Unsigned(u),
        Type::Named(NamedType::Enum(en)) => SwitchingType::Enum(en),
        tp => {
            return Error::not_switching_type(tp);
        },
    };
    match expect(handle, &Token::Bracket(Bracket::Right), "Expected \"(\"", "Expected \"(\"", Complaint::Unexpected) {
        Err(error) => {
            return Err(error);
        },
        Ok(_) => {},
    }
    match expect(
        handle,
        &Token::Bracket(Bracket::LeftCurly),
        "No union body",
        "Expected union body \"{\"",
        Complaint::Unexpected,
    ) {
        Err(error) => {
            return Err(error);
        },
        Ok(_) => {},
    }
    let mut un = match parse_union_body(handle) {
        Err(error) => {
            return Err(error);
        },
        Ok(un) => un,
    };
    un.value = decl.0;
    un.switch_type = stp;
    match expect(
        handle,
        &Token::Bracket(Bracket::RightCurly),
        "Union definition wasn't finished",
        "Union definition wasn't finished",
        Complaint::Unexpected,
    ) {
        Err(error) => {
            return Err(error);
        },
        Ok(_) => {},
    }
    match expect(
        handle,
        &Token::Separator(Separator::Semicolon),
        "Union definition wasn't finished",
        "Union definition wasn't finished",
        Complaint::NotClosed,
    ) {
        Err(error) => {
            return Err(error);
        },
        Ok(_) => {},
    }
    Ok(un)
}

/// The definition of a union, behind the word `union`: a name that no
/// type has yet, and what follows it. Meanwhile the union is pending: it
/// may be pointed to, and not held.
pub open spec fn union_definition(rest: Seq<Token>, scope: Scope) -> std::result::Result<
    Parsed<(String, UnionView)>,
    Fault,
> {
    match named(
        rest,
        "No union identifier was provided"@,
        "Expected union identifier"@,
        Complaint::Unexpected,
    ) {
        Err(fault) => Err(fault),
        Ok(name) => if scope.type_taken(name.value@) {
            Err(Fault::TypeRedefined("Union with id \""@ + name.value@ + "\" already exists"@))
        } else {
            match union_pending(name.rest, Scope { pending_union: Some(name.value@), ..scope }) {
                Err(fault) => Err(fault),
                Ok(un) => Ok(
                    Parsed {
                        value: (name.value, un.value),
                        rest: un.rest,
                        scope: Scope {
                            unions: scope.unions.insert(name.value@),
                            pending_union: None,
                            ..scope
                        },
                    },
                ),
            }
        },
    }
}

pub fn parse_union_definition(handle: &mut Handle) -> (result: Result<(String, Union)>)
    requires
        old(handle).wf(),
    ensures
        final(handle).wf(),
        match result {
            Ok(def) => union_definition(old(handle).rest(), old(handle).scope()) == Ok::<
                Parsed<(String, UnionView)>,
                Fault,
            >(Parsed { value: (def.0, def.1@), rest: final(handle).rest(), scope: final(handle).scope() }),
            Err(error) => union_definition(old(handle).rest(), old(handle).scope()) == Err::<
                Parsed<(String, UnionView)>,
                Fault,
            >(error@),
        },
        result is Err ==> final(handle).scope() == (Scope { pending_union: None, ..old(handle).scope() }),
        result is Ok ==> final(handle).rest().len() < old(handle).rest().len(),
{
    let id = match expect_name(
        handle,
        "No union identifier was provided",
        "Expected union identifier",
        Complaint::Unexpected,
    ) {
        Err(error) => {
            handle.pending_types.unions = None;
            return Err(error);
        },
        Ok(id) => id,
    };
    if type_taken(handle, id.as_str()) {
        handle.pending_types.unions = None;
        return Error::type_redefined(cat3("Union with id \"", id.as_str(), "\" already exists"));
    }
    handle.pending_types.unions = Some(id.clone());
    let out = parse_pending_union(handle);
    handle.pending_types.unions = None;
    match out {
        Err(error) => Err(error),
        Ok(un) => {
            add_name(&mut handle.defined_types.unions, id.clone());
            Ok((id, un))
        },
    }
}

/// The arguments of a procedure behind those read already: types with
/// commas between them; `void` alone stands for no arguments.
pub open spec fn procedure_args_from(rest: Seq<Token>, scope: Scope, args: Seq<Type>) -> std::result::Result<
    Taken<Seq<Type>>,
    Fault,
>
    decreases rest.len(),
{
    match full_type(rest, scope) {
        Err(fault) => Err(fault),
        Ok(tp) => if tp.value == Type::Void && args.len() == 0 {
            Ok(Taken { value: args, rest: tp.rest })
        } else if separated(tp.rest, Separator::Comma) && tp.rest.skip(1).len() < rest.len() {
            procedure_args_from(tp.rest.skip(1), scope, args.push(tp.value))
        } else if separated(tp.rest, Separator::Comma) {
            Ok(Taken { value: args.push(tp.value), rest: tp.rest.skip(1) })
        } else {
            Ok(Taken { value: args.push(tp.value), rest: tp.rest })
        },
    }
}

/// The arguments of a procedure.
pub open spec fn procedure_args(rest: Seq<Token>, scope: Scope) -> std::result::Result<Taken<Seq<Type>>, Fault> {
    procedure_args_from(rest, scope, Seq::empty())
}

#[verifier::loop_isolation(false)]
pub fn parse_procedure_args(handle: &mut Handle) -> (result: Result<Procedure>)
    requires
        old(handle).wf(),
    ensures
        final(handle).wf(),
        final(handle).scope() == old(handle).scope(),
        match result {
            Ok(out) => procedure_args(old(handle).rest(), old(handle).scope()) == Ok::<
                Taken<Seq<Type>>,
                Fault,
            >(Taken { value: out.arguments@, rest: final(handle).rest() }),
            Err(error) => procedure_args(old(handle).rest(), old(handle).scope()) == Err::<
                Taken<Seq<Type>>,
                Fault,
            >(error@),
        },
        result is Ok ==> final(handle).rest().len() < old(handle).rest().len(),
{
    let mut out = new_procedure();
    loop
        invariant
            handle.wf(),
            handle.scope() == old(handle).scope(),
            procedure_args(old(handle).rest(), old(handle).scope()) == procedure_args_from(
                handle.rest(),
                handle.scope(),
                out.arguments@,
            ),
            handle.rest().len() <= old(handle).rest().len(),
        decreases handle.rest().len(),
    {
        match parse_type(handle) {
            Err(error) => {
                return Err(error);
            },
            Ok(tp) => {
                if tp.is_void() && out.arguments.len() == 0 {
                    return Ok(out);
                }
                out.arguments.push(tp);
                if !take_token(handle, &Token::Separator(Separator::Comma)) {
                    return Ok(out);
                }
            },
        }
    }
}

/// A procedure with its number: the type of the result, the name, the
/// arguments in round brackets, `=`, the number, and a semicolon.
pub open spec fn procedure(rest: Seq<Token>, scope: Scope) -> std::result::Result<
    Taken<(Value, ProcedureView)>,
    Fault,
> {
    match full_type(rest, scope) {
        Err(fault) => Err(fault),
        Ok(tp) => match named(
            tp.rest,
            "Procedure identifier expected"@,
            "Procedure identifier expected"@,
            Complaint::Unexpected,
        ) {
            Err(fault) => Err(fault),
            Ok(name) => match expected(
                name.rest,
                TokenView::Bracket(Bracket::Left),
                "No procedure body"@,
                "Expected procedure body \"{\""@,
                Complaint::Unexpected,
            ) {
                Err(fault) => Err(fault),
                Ok(rest) => match procedure_args(rest, scope) {
                    Err(fault) => Err(fault),
                    Ok(args) => match numbered(
                        args.rest,
                        scope,
                        TokenView::Bracket(Bracket::Right),
                        "Procedure body not closed"@,
                        "Number not assigned to procedure"@,
                        "Procedure definition not closed"@,
                    ) {
                        Err(fault) => Err(fault),
                        Ok(number) => Ok(
                            Taken {
                                value: (
                                    number.value,
                                    ProcedureView {
                                        name: name.value@,
                                        return_type: tp.value,
                                        arguments: args.value,
                                    },
                                ),
                                rest: number.rest,
                            },
                        ),
                    },
                },
            },
        },
    }
}

/// The number behind a body: the closing bracket of the body, `=`, the
/// number, and a semicolon.
pub open spec fn numbered(
    rest: Seq<Token>,
    scope: Scope,
    close: TokenView,
    open_msg: Seq<char>,
    assign_msg: Seq<char>,
    end_msg: Seq<char>,
) -> std::result::Result<Taken<Value>, Fault> {
    match expected(rest, close, open_msg, open_msg, Complaint::Unexpected) {
        Err(fault) => Err(fault),
        Ok(rest) => match expected(
            rest,
            TokenView::Operator(Operator::Assign),
            assign_msg,
            assign_msg,
            Complaint::Unexpected,
        ) {
            Err(fault) => Err(fault),
            Ok(rest) => match value(rest, scope, false) {
                Err(fault) => Err(fault),
                Ok(v) => match expected(
                    v.rest,
                    TokenView::Separator(Separator::Semicolon),
                    end_msg,
                    end_msg,
                    Complaint::Unexpected,
                ) {
                    Err(fault) => Err(fault),
                    Ok(rest) => Ok(Taken { value: v.value, rest }),
                },
            },
        },
    }
}

/// Reads the number behind a body.
pub fn parse_numbered(handle: &mut Handle, close: &Token, open_msg: &str, assign_msg: &str, end_msg: &str) -> (result: Result<Value>)
    requires
        old(handle).wf(),
    ensures
        final(handle).wf(),
        final(handle).scope() == old(handle).scope(),
        took(
            result,
            numbered(old(handle).rest(), old(handle).scope(), close@, open_msg@, assign_msg@, end_msg@),
            final(handle).rest(),
        ),
        result is Ok ==> final(handle).rest().len() < old(handle).rest().len(),
{
    match expect(handle, close, open_msg, open_msg, Complaint::Unexpected) {
        Err(error) => {
            return Err(error);
        },
        Ok(_) => {},
    }
    match expect(handle, &Token::Operator(Operator::Assign), assign_msg, assign_msg, Complaint::Unexpected) {
        Err(error) => {
            return Err(error);
        },
        Ok(_) => {},
    }
    let v = match parse_value(handle) {
        Err(error) => {
            return Err(error);
        },
        Ok(v) => v,
    };
    match expect(handle, &Token::Separator(Separator::Semicolon), end_msg, end_msg, Complaint::Unexpected) {
        Err(error) => {
            return Err(error);
        },
        Ok(_) => {},
    }
    Ok(v)
}

pub fn parse_procedure(handle: &mut Handle) -> (result: Result<(Value, Procedure)>)
    requires
        old(handle).wf(),
    ensures
        final(handle).wf(),
        final(handle).scope() == old(handle).scope(),
        match result {
            Ok(out) => procedure(old(handle).rest(), old(handle).scope()) == Ok::<
                Taken<(Value, ProcedureView)>,
                Fault,
            >(Taken { value: (out.0, out.1@), rest: final(handle).rest() }),
            Err(error) => procedure(old(handle).rest(), old(handle).scope()) == Err::<
                Taken<(Value, ProcedureView)>,
                Fault,
            >(error@),
        },
        result is Ok ==> final(handle).rest().len() < old(handle).rest().len(),
{
    let tp = match parse_type(handle) {
        Err(error) => {
            return Err(error);
        },
        Ok(tp) => tp,
    };
    let id = match expect_name(
        handle,
        "Procedure identifier expected",
        "Procedure identifier expected",
        Complaint::Unexpected,
    ) {
        Err(error) => {
            return Err(error);
        },
        Ok(id) => id,
    };
    match expect(
        handle,
        &Token::Bracket(Bracket::Left),
        "No procedure body",
        "Expected procedure body \"{\"",
        Complaint::Unexpected,
    ) {
        Err(error) => {
            return Err(error);
        },
        Ok(_) => {},
    }
    let mut out = match parse_procedure_args(handle) {
        Err(error) => {
            return Err(error);
        },
        Ok(out) => out,
    };
    out.name = id;
    out.return_type = tp;
    match parse_numbered(
        handle,
        &Token::Bracket(Bracket::Right),
        "Procedure body not closed",
        "Number not assigned to procedure",
        "Procedure definition not closed",
    ) {
        Err(error) => Err(error),
        Ok(v) => Ok((v, out)),
    }
}

/// The procedures behind those read already: no number and no name twice,
/// up to the closing bracket.
pub open spec fn procedures_from(
    rest: Seq<Token>,
    scope: Scope,
    items: Seq<(Value, ProcedureView)>,
    names: Set<Seq<char>>,
    numbers: Set<ValueView>,
) -> std::result::Result<Taken<Seq<(Value, ProcedureView)>>, Fault>
    decreases rest.len(),
{
    match procedure(rest, scope) {
        Err(fault) => Err(fault),
        Ok(item) => if numbers.contains(item.value.0@) {
            Err(Fault::ProcedureNumberReassigned(item.value.0@))
        } else if names.contains(item.value.1.name) {
            Err(
                Fault::IdentifierRedefined(
                    "Procedure with identifier \""@ + item.value.1.name + "\" already exists in current version"@,
                ),
            )
        } else if item.rest.len() == 0 || closing(item.rest) || item.rest.len() >= rest.len() {
            Ok(Taken { value: items.push(item.value), rest: item.rest })
        } else {
            procedures_from(
                item.rest,
                scope,
                items.push(item.value),
                names.insert(item.value.1.name),
                numbers.insert(item.value.0@),
            )
        },
    }
}

/// The procedures of a version.
pub open spec fn procedures(rest: Seq<Token>, scope: Scope) -> std::result::Result<
    Taken<Seq<(Value, ProcedureView)>>,
    Fault,
> {
    procedures_from(rest, scope, Seq::empty(), Set::empty(), Set::empty())
}

/// The values under which the entries are filed are those of the set.
pub open spec fn procedures_numbered(entries: Seq<(Value, Procedure)>, numbers: Set<ValueView>) -> bool {
    forall|v: ValueView| numbers.contains(v) <==> crate::rpc::has_value(entries, v)
}

#[verifier::loop_isolation(false)]
pub fn parse_version_procedures(handle: &mut Handle) -> (result: Result<Version>)
    requires
        old(handle).wf(),
    ensures
        final(handle).wf(),
        final(handle).scope() == old(handle).scope(),
        match result {
            Ok(out) => procedures(old(handle).rest(), old(handle).scope()) == Ok::<
                Taken<Seq<(Value, ProcedureView)>>,
                Fault,
            >(Taken { value: out@.procedures, rest: final(handle).rest() }) && out.name@ == Seq::<char>::empty(),
            Err(error) => procedures(old(handle).rest(), old(handle).scope()) == Err::<
                Taken<Seq<(Value, ProcedureView)>>,
                Fault,
            >(error@),
        },
        result is Ok ==> final(handle).rest().len() < old(handle).rest().len(),
{
    let mut out = new_version();
    let mut names: Vec<String> = Vec::new();
    let mut values: Vec<Value> = Vec::new();
    assert(out@.procedures =~= Seq::<(Value, ProcedureView)>::empty());
    assert(name_set(names@) =~= Set::<Seq<char>>::empty());
    assert(value_set(values@) =~= Set::<ValueView>::empty());
    loop
        invariant
            handle.wf(),
            handle.scope() == old(handle).scope(),
            names_distinct(names@),
            values_distinct(values@),
            out.name@ == Seq::<char>::empty(),
            procedures_numbered(version_procedures(out.procedures), value_set(values@)),
            procedures(old(handle).rest(), old(handle).scope()) == procedures_from(
                handle.rest(),
                handle.scope(),
                out@.procedures,
                name_set(names@),
                value_set(values@),
            ),
            handle.rest().len() <= old(handle).rest().len(),
        decreases handle.rest().len(),
    {
        match parse_procedure(handle) {
            Err(error) => {
                return Err(error);
            },
            Ok(item) => {
                if has_value(&values, &item.0) {
                    return Error::procedure_number_reassigned(item.0);
                }
                if has_name(&names, item.1.name.as_str()) {
                    return Error::identifier_redefined(
                        cat3(
                            "Procedure with identifier \"",
                            item.1.name.as_str(),
                            "\" already exists in current version",
                        ),
                    );
                }
                let ghost before = version_procedures(out.procedures);
                let ghost before_view = out@.procedures;
                let ghost added = (item.0, item.1@);
                add_value(&mut values, item.0.clone());
                add_name(&mut names, item.1.name.clone());
                procedures_insert(&mut out.procedures, item.0, item.1);
                assert(out@.procedures =~= before_view.push(added));
                assert forall|v: ValueView| value_set(values@).contains(v) <==> crate::rpc::has_value(
                    version_procedures(out.procedures),
                    v,
                ) by {
                    if crate::rpc::has_value(version_procedures(out.procedures), v) {
                        let i = choose|i: int|
                            0 <= i < version_procedures(out.procedures).len() && (#[trigger] version_procedures(
                                out.procedures,
                            )[i]).0@ == v;
                        if i < before.len() {
                            assert(before[i].0@ == v);
                        }
                    }
                    if crate::rpc::has_value(before, v) {
                        let i = choose|i: int| 0 <= i < before.len() && (#[trigger] before[i]).0@ == v;
                        assert(version_procedures(out.procedures)[i].0@ == v);
                    }
                    if v == added.0@ {
                        assert(version_procedures(out.procedures)[before.len() as int].0@ == v);
                    }
                }
                if at_end(handle) {
                    return Ok(out);
                }
                if peek_token(handle, &Token::Bracket(Bracket::RightCurly)) {
                    return Ok(out);
                }
            },
        }
    }
}

/// A version with its number: `version`, the name, the procedures between
/// curly brackets, `=`, the number, and a semicolon.
pub open spec fn version(rest: Seq<Token>, scope: Scope) -> std::result::Result<
    Taken<(Value, VersionView)>,
    Fault,
> {
    match expected(
        rest,
        TokenView::Keyword(Keyword::Version),
        "Version identifier expected"@,
        "Version identifier expected"@,
        Complaint::Unexpected,
    ) {
        Err(fault) => Err(fault),
        Ok(rest) => match named(
            rest,
            "Version identifier expected"@,
            "Version identifier expected"@,
            Complaint::Unexpected,
        ) {
            Err(fault) => Err(fault),
            Ok(name) => match expected(
                name.rest,
                TokenView::Bracket(Bracket::LeftCurly),
                "No version body"@,
                "Expected version body \"{\""@,
                Complaint::Unexpected,
            ) {
                Err(fault) => Err(fault),
                Ok(rest) => match procedures(rest, scope) {
                    Err(fault) => Err(fault),
                    Ok(body) => match numbered(
                        body.rest,
                        scope,
                        TokenView::Bracket(Bracket::RightCurly),
                        "Version body not closed"@,
                        "Number not assigned to version"@,
                        "Version definition not closed"@,
                    ) {
                        Err(fault) => Err(fault),
                        Ok(number) => Ok(
                            Taken {
                                value: (
                                    number.value,
                                    VersionView { name: name.value@, procedures: body.value },
                                ),
                                rest: number.rest,
                            },
                        ),
                    },
                },
            },
        },
    }
}

pub fn parse_version(handle: &mut Handle) -> (result: Result<(Value, Version)>)
    requires
        old(handle).wf(),
    ensures
        final(handle).wf(),
        final(handle).scope() == old(handle).scope(),
        match result {
            Ok(out) => version(old(handle).rest(), old(handle).scope()) == Ok::<
                Taken<(Value, VersionView)>,
                Fault,
            >(Taken { value: (out.0, out.1@), rest: final(handle).rest() }),
            Err(error) => version(old(handle).rest(), old(handle).scope()) == Err::<
                Taken<(Value, VersionView)>,
                Fault,
            >(error@),
        },
        result is Ok ==> final(handle).rest().len() < old(handle).rest().len(),
{
    match expect(
        handle,
        &Token::Keyword(Keyword::Version),
        "Version identifier expected",
        "Version identifier expected",
        Complaint::Unexpected,
    ) {
        Err(error) => {
            return Err(error);
        },
        Ok(_) => {},
    }
    let id = match expect_name(
        handle,
        "Version identifier expected",
        "Version identifier expected",
        Complaint::Unexpected,
    ) {
        Err(error) => {
            return Err(error);
        },
        Ok(id) => id,
    };
    match expect(
        handle,
        &Token::Bracket(Bracket::LeftCurly),
        "No version body",
        "Expected version body \"{\"",
        Complaint::Unexpected,
    ) {
        Err(error) => {
            return Err(error);
        },
        Ok(_) => {},
    }
    let mut out = match parse_version_procedures(handle) {
        Err(error) => {
            return Err(error);
        },
        Ok(out) => out,
    };
    out.name = id;
    match parse_numbered(
        handle,
        &Token::Bracket(Bracket::RightCurly),
        "Version body not closed",
        "Number not assigned to version",
        "Version definition not closed",
    ) {
        Err(error) => Err(error),
        Ok(v) => Ok((v, out)),
    }
}

/// The versions behind those read already: no number and no name twice,
/// up to the closing bracket.
pub open spec fn versions_from(
    rest: Seq<Token>,
    scope: Scope,
    items: Seq<(Value, VersionView)>,
    names: Set<Seq<char>>,
    numbers: Set<ValueView>,
) -> std::result::Result<Taken<Seq<(Value, VersionView)>>, Fault>
    decreases rest.len(),
{
    match version(rest, scope) {
        Err(fault) => Err(fault),
        Ok(item) => if numbers.contains(item.value.0@) {
            Err(Fault::VersionNumberReassigned(item.value.0@))
        } else if names.contains(item.value.1.name) {
            Err(
                Fault::IdentifierRedefined(
                    "Version with identifier \""@ + item.value.1.name + "\" already exists in current program"@,
                ),
            )
        } else if item.rest.len() == 0 || closing(item.rest) || item.rest.len() >= rest.len() {
            Ok(Taken { value: items.push(item.value), rest: item.rest })
        } else {
            versions_from(
                item.rest,
                scope,
                items.push(item.value),
                names.insert(item.value.1.name),
                numbers.insert(item.value.0@),
            )
        },
    }
}

/// The versions of a program.
pub open spec fn versions(rest: Seq<Token>, scope: Scope) -> std::result::Result<
    Taken<Seq<(Value, VersionView)>>,
    Fault,
> {
    versions_from(rest, scope, Seq::empty(), Set::empty(), Set::empty())
}

/// The values under which the entries are filed are those of the set.
pub open spec fn versions_numbered(entries: Seq<(Value, Version)>, numbers: Set<ValueView>) -> bool {
    forall|v: ValueView| numbers.contains(v) <==> crate::rpc::has_value(entries, v)
}

#[verifier::loop_isolation(false)]
pub fn parse_program_versions(handle: &mut Handle) -> (result: Result<Program>)
    requires
        old(handle).wf(),
    ensures
        final(handle).wf(),
        final(handle).scope() == old(handle).scope(),
        match result {
            Ok(out) => versions(old(handle).rest(), old(handle).scope()) == Ok::<
                Taken<Seq<(Value, VersionView)>>,
                Fault,
            >(Taken { value: out@.versions, rest: final(handle).rest() }) && out.name@ == Seq::<char>::empty(),
            Err(error) => versions(old(handle).rest(), old(handle).scope()) == Err::<
                Taken<Seq<(Value, VersionView)>>,
                Fault,
            >(error@),
        },
        result is Ok ==> final(handle).rest().len() < old(handle).rest().len(),
{
    let mut out = new_program();
    let mut names: Vec<String> = Vec::new();
    let mut values: Vec<Value> = Vec::new();
    assert(out@.versions =~= Seq::<(Value, VersionView)>::empty());
    assert(name_set(names@) =~= Set::<Seq<char>>::empty());
    assert(value_set(values@) =~= Set::<ValueView>::empty());
    loop
        invariant
            handle.wf(),
            handle.scope() == old(handle).scope(),
            names_distinct(names@),
            values_distinct(values@),
            out.name@ == Seq::<char>::empty(),
            versions_numbered(program_versions(out.versions), value_set(values@)),
            versions(old(handle).rest(), old(handle).scope()) == versions_from(
                handle.rest(),
                handle.scope(),
                out@.versions,
                name_set(names@),
                value_set(values@),
            ),
            handle.rest().len() <= old(handle).rest().len(),
        decreases handle.rest().len(),
    {
        match parse_version(handle) {
            Err(error) => {
                return Err(error);
            },
            Ok(item) => {
                if has_value(&values, &item.0) {
                    return Error::version_number_reassigned(item.0);
                }
                if has_name(&names, item.1.name.as_str()) {
                    return Error::identifier_redefined(
                        cat3(
                            "Version with identifier \"",
                            item.1.name.as_str(),
                            "\" already exists in current program",
                        ),
                    );
                }
                let ghost before = program_versions(out.versions);
                let ghost before_view = out@.versions;
                let ghost added = (item.0, item.1@);
                add_value(&mut values, item.0.clone());
                add_name(&mut names, item.1.name.clone());
                versions_insert(&mut out.versions, item.0, item.1);
                assert(out@.versions =~= before_view.push(added));
                assert forall|v: ValueView| value_set(values@).contains(v) <==> crate::rpc::has_value(
                    program_versions(out.versions),
                    v,
                ) by {
                    if crate::rpc::has_value(program_versions(out.versions), v) {
                        let i = choose|i: int|
                            0 <= i < program_versions(out.versions).len() && (#[trigger] program_versions(
                                out.versions,
                            )[i]).0@ == v;
                        if i < before.len() {
                            assert(before[i].0@ == v);
                        }
                    }
                    if crate::rpc::has_value(before, v) {
                        let i = choose|i: int| 0 <= i < before.len() && (#[trigger] before[i]).0@ == v;
                        assert(program_versions(out.versions)[i].0@ == v);
                    }
                    if v == added.0@ {
                        assert(program_versions(out.versions)[before.len() as int].0@ == v);
                    }
                }
                if at_end(handle) {
                    return Ok(out);
                }
                if peek_token(handle, &Token::Bracket(Bracket::RightCurly)) {
                    return Ok(out);
                }
            },
        }
    }
}

/// The definition of a program, behind the word `program`: a name that is
/// new to the module, the versions between curly brackets, `=`, a number
/// that no program has yet, and a semicolon.
pub open spec fn program_definition(rest: Seq<Token>, scope: Scope) -> std::result::Result<
    Parsed<(Value, ProgramView)>,
    Fault,
> {
    match named(
        rest,
        "Program identifier expected"@,
        "Program identifier expected"@,
        Complaint::Unexpected,
    ) {
        Err(fault) => Err(fault),
        Ok(name) => if scope.namespace.contains(name.value@) {
            Err(
                Fault::IdentifierRedefined(
                    "Program identifier \""@ + name.value@ + "\" already exists"@,
                ),
            )
        } else {
            match expected(
                name.rest,
                TokenView::Bracket(Bracket::LeftCurly),
                "No program body"@,
                "Expected program body \"{\""@,
                Complaint::Unexpected,
            ) {
                Err(fault) => Err(fault),
                Ok(rest) => match versions(rest, scope) {
                    Err(fault) => Err(fault),
                    Ok(body) => match expected(
                        body.rest,
                        TokenView::Bracket(Bracket::RightCurly),
                        "Program body not closed"@,
                        "Program body not closed"@,
                        Complaint::Unexpected,
                    ) {
                        Err(fault) => Err(fault),
                        Ok(rest) => match expected(
                            rest,
                            TokenView::Operator(Operator::Assign),
                            "Number not assigned to program"@,
                            "Number not assigned to program"@,
                            Complaint::Unexpected,
                        ) {
                            Err(fault) => Err(fault),
                            Ok(rest) => match value(rest, scope, false) {
                                Err(fault) => Err(fault),
                                Ok(v) => if scope.numbers.contains(v.value@) {
                                    Err(Fault::ProgramNumberReassigned(v.value@))
                                } else {
                                    match expected(
                                        v.rest,
                                        TokenView::Separator(Separator::Semicolon),
                                        "Program definition not closed"@,
                                        "Program definition not closed"@,
                                        Complaint::Unexpected,
                                    ) {
                                        Err(fault) => Err(fault),
                                        Ok(rest) => Ok(
                                            Parsed {
                                                value: (
                                                    v.value,
                                                    ProgramView {
                                                        name: name.value@,
                                                        versions: body.value,
                                                    },
                                                ),
                                                rest,
                                                scope: Scope {
                                                    namespace: scope.namespace.insert(name.value@),
                                                    numbers: scope.numbers.insert(v.value@),
                                                    ..scope
                                                },
                                            },
                                        ),
                                    }
                                },
                            },
                        },
                    },
                },
            }
        },
    }
}

pub fn parse_program_definition(handle: &mut Handle) -> (result: Result<(Value, Program)>)
    requires
        old(handle).wf(),
    ensures
        final(handle).wf(),
        match result {
            Ok(out) => program_definition(old(handle).rest(), old(handle).scope()) == Ok::<
                Parsed<(Value, ProgramView)>,
                Fault,
            >(Parsed { value: (out.0, out.1@), rest: final(handle).rest(), scope: final(handle).scope() }),
            Err(error) => program_definition(old(handle).rest(), old(handle).scope()) == Err::<
                Parsed<(Value, ProgramView)>,
                Fault,
            >(error@),
        },
        result is Ok ==> final(handle).rest().len() < old(handle).rest().len(),
        result is Err ==> final(handle).scope() == old(handle).scope(),
{
    let id = match expect_name(
        handle,
        "Program identifier expected",
        "Program identifier expected",
        Complaint::Unexpected,
    ) {
        Err(error) => {
            return Err(error);
        },
        Ok(id) => id,
    };
    if has_name(&handle.namespace, id.as_str()) {
        return Error::identifier_redefined(cat3("Program identifier \"", id.as_str(), "\" already exists"));
    }
    match expect(
        handle,
        &Token::Bracket(Bracket::LeftCurly),
        "No program body",
        "Expected program body \"{\"",
        Complaint::Unexpected,
    ) {
        Err(error) => {
            return Err(error);
        },
        Ok(_) => {},
    }
    let mut out = match parse_program_versions(handle) {
        Err(error) => {
            return Err(error);
        },
        Ok(out) => out,
    };
    out.name = id;
    match expect(
        handle,
        &Token::Bracket(Bracket::RightCurly),
        "Program body not closed",
        "Program body not closed",
        Complaint::Unexpected,
    ) {
        Err(error) => {
            return Err(error);
        },
        Ok(_) => {},
    }
    match expect(
        handle,
        &Token::Operator(Operator::Assign),
        "Number not assigned to program",
        "Number not assigned to program",
        Complaint::Unexpected,
    ) {
        Err(error) => {
            return Err(error);
        },
        Ok(_) => {},
    }
    let v = match parse_value(handle) {
        Err(error) => {
            return Err(error);
        },
        Ok(v) => v,
    };
    if has_value(&handle.assigned_numbers, &v) {
        return Error::program_number_reassigned(v);
    }
    match expect(
        handle,
        &Token::Separator(Separator::Semicolon),
        "Program definition not closed",
        "Program definition not closed",
        Complaint::Unexpected,
    ) {
        Err(error) => {
            return Err(error);
        },
        Ok(_) => {},
    }
    add_name(&mut handle.namespace, out.name.clone());
    add_value(&mut handle.assigned_numbers, v.clone());
    Ok((v, out))
}

/// One definition: its first token says of which kind it is.
pub open spec fn definition(rest: Seq<Token>, scope: Scope) -> std::result::Result<Parsed<DefinitionView>, Fault> {
    if rest.len() == 0 {
        Err(Fault::UnexpectedEOF("Definition expected"@))
    } else {
        let behind = rest.skip(1);
        match rest[0] {
            Token::Type(crate::rpc::token::Type::Enum) => match enum_definition(behind, scope) {
                Err(fault) => Err(fault),
                Ok(def) => Ok(
                    Parsed {
                        value: DefinitionView::Enum(def.value.0@, tags_view(def.value.1)),
                        rest: def.rest,
                        scope: def.scope,
                    },
                ),
            },
            Token::Keyword(Keyword::Const) => match const_definition(behind, scope) {
                Err(fault) => Err(fault),
                Ok(def) => Ok(
                    Parsed {
                        value: DefinitionView::Const(def.value.0@, def.value.1),
                        rest: def.rest,
                        scope: def.scope,
                    },
                ),
            },
            Token::Keyword(Keyword::Typedef) => match typedef_definition(behind, scope) {
                Err(fault) => Err(fault),
                Ok(def) => Ok(
                    Parsed {
                        value: DefinitionView::Typedef(def.value.0@, def.value.1),
                        rest: def.rest,
                        scope: def.scope,
                    },
                ),
            },
            Token::Type(crate::rpc::token::Type::Struct) => match struct_definition(behind, scope) {
                Err(fault) => Err(fault),
                Ok(def) => Ok(
                    Parsed {
                        value: DefinitionView::Struct(def.value.0@, fields_view(def.value.1)),
                        rest: def.rest,
                        scope: def.scope,
                    },
                ),
            },
            Token::Type(crate::rpc::token::Type::Union) => match union_definition(behind, scope) {
                Err(fault) => Err(fault),
                Ok(def) => Ok(
                    Parsed {
                        value: DefinitionView::Union(def.value.0@, def.value.1),
                        rest: def.rest,
                        scope: def.scope,
                    },
                ),
            },
            Token::Keyword(Keyword::Program) => match program_definition(behind, scope) {
                Err(fault) => Err(fault),
                Ok(def) => Ok(
                    Parsed {
                        value: DefinitionView::Program(def.value.0, def.value.1),
                        rest: def.rest,
                        scope: def.scope,
                    },
                ),
            },
            t => Err(Fault::UnknownDefinition(t@)),
        }
    }
}

pub fn parse_definition(handle: &mut Handle) -> (result: Result<Definition>)
    requires
        old(handle).wf(),
    ensures
        final(handle).wf(),
        match result {
            Ok(def) => definition(old(handle).rest(), old(handle).scope()) == Ok::<
                Parsed<DefinitionView>,
                Fault,
            >(Parsed { value: def@, rest: final(handle).rest(), scope: final(handle).scope() }),
            Err(error) => definition(old(handle).rest(), old(handle).scope()) == Err::<
                Parsed<DefinitionView>,
                Fault,
            >(error@),
        },
        result is Ok ==> final(handle).rest().len() < old(handle).rest().len(),
{
    match handle.tokens.next() {
        None => Error::unexpected_eof(String::from_str("Definition expected")),
        Some(t) => match t {
            Token::Type(crate::rpc::token::Type::Enum) => match parse_enum_definition(handle) {
                Err(error) => Err(error),
                Ok(def) => Ok(Definition::Enum(def.0, def.1)),
            },
            Token::Keyword(Keyword::Const) => match parse_const_definition(handle) {
                Err(error) => Err(error),
                Ok(def) => Ok(Definition::Const(def.0, def.1)),
            },
            Token::Keyword(Keyword::Typedef) => match parse_typedef_definition(handle) {
                Err(error) => Err(error),
                Ok(def) => Ok(Definition::Typedef(def.0, def.1)),
            },
            Token::Type(crate::rpc::token::Type::Struct) => match parse_struct_definition(handle) {
                Err(error) => Err(error),
                Ok(def) => Ok(Definition::Struct(def.0, def.1)),
            },
            Token::Type(crate::rpc::token::Type::Union) => match parse_union_definition(handle) {
                Err(error) => Err(error),
                Ok(def) => Ok(Definition::Union(def.0, def.1)),
            },
            Token::Keyword(Keyword::Program) => match parse_program_definition(handle) {
                Err(error) => Err(error),
                Ok(def) => Ok(Definition::Program(def.0, def.1)),
            },
            t => Error::unknown_definition(t),
        },
    }
}

/// The definitions behind those read already, up to the end of the
/// tokens.
pub open spec fn definitions_from(rest: Seq<Token>, scope: Scope, definitions: Seq<DefinitionView>) -> std::result::Result<
    Seq<DefinitionView>,
    Fault,
>
    decreases rest.len(),
{
    if rest.len() == 0 {
        Ok(definitions)
    } else {
        match definition(rest, scope) {
            Err(fault) => Err(fault),
            Ok(def) => if def.rest.len() < rest.len() {
                definitions_from(def.rest, def.scope, definitions.push(def.value))
            } else {
                Ok(definitions.push(def.value))
            },
        }
    }
}

/// The module that the tokens spell: the comments are left out, and the
/// definitions are read one after the other; the first error ends the
/// reading.
pub open spec fn module(tokens: Seq<Token>) -> std::result::Result<Seq<DefinitionView>, Fault> {
    definitions_from(uncommented(tokens, tokens.len()), Scope::empty(), Seq::empty())
}

/// The tokens without the comments.
pub fn drop_comments(tokens: &Vec<Token>) -> (kept: Vec<Token>)
    ensures
        kept@ == uncommented(tokens@, tokens@.len()),
{
    let mut kept: Vec<Token> = Vec::new();
    let mut i: usize = 0;
    while i < tokens.len()
        invariant
            i <= tokens@.len(),
            kept@ == uncommented(tokens@, i as nat),
        decreases tokens@.len() - i,
    {
        if !tokens[i].is_comment() {
            kept.push(tokens[i].clone());
        }
        i = i + 1;
    }
    kept
}

impl Handle {
    /// The state before the first definition.
    pub fn new(tokens: Vec<Token>) -> (handle: Self)
        ensures
            handle.wf(),
            handle.rest() == tokens@,
            handle.scope() == Scope::empty(),
    {
        let handle = Handle {
            tokens: PickIterator::new(tokens),
            namespace: Vec::new(),
            values: Vec::new(),
            last_tag: None,
            pending_types: PendingTypes { structs: None, unions: None },
            defined_types: DefinedTypes {
                typedefs: Vec::new(),
                enums: Vec::new(),
                structs: Vec::new(),
                unions: Vec::new(),
            },
            assigned_numbers: Vec::new(),
        };
        assert(name_set(Seq::<String>::empty()) =~= Set::<Seq<char>>::empty());
        assert(value_set(Seq::<Value>::empty()) =~= Set::<ValueView>::empty());
        handle
    }
}

#[verifier::loop_isolation(false)]
pub fn parse(tokens: Vec<Token>) -> (result: Result<Module>)
    ensures
        match result {
            Ok(parsed) => module(tokens@) == Ok::<Seq<DefinitionView>, Fault>(parsed@),
            Err(error) => module(tokens@) == Err::<Seq<DefinitionView>, Fault>(error@),
        },
{
    let mut parsed = new_module();
    let mut handle = Handle::new(drop_comments(&tokens));
    assert(parsed@ =~= Seq::<DefinitionView>::empty());
    loop
        invariant
            handle.wf(),
            module(tokens@) == definitions_from(handle.rest(), handle.scope(), parsed@),
        decreases handle.rest().len(),
    {
        if at_end(&mut handle) {
            return Ok(parsed);
        }
        match parse_definition(&mut handle) {
            Err(error) => {
                return Err(error);
            },
            Ok(def) => {
                let ghost before = parsed@;
                parsed.definitions.push(def);
                assert(parsed@ =~= before.push(def@));
            },
        }
    }
}

} // verus!
