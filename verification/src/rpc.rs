//! The description of an RPC module: values, types and definitions.

use vstd::prelude::*;
use indexmap::IndexMap;

pub mod token;

verus! {

/// An insertion-ordered map, kept opaque: what it holds is named per
/// instantiation below.
#[verifier::external_type_specification]
#[verifier::external_body]
#[verifier::reject_recursive_types(K)]
#[verifier::reject_recursive_types(V)]
#[verifier::reject_recursive_types(S)]
pub struct ExIndexMap<K, V, S>(IndexMap<K, V, S>);

/// A literal integer or the name of a constant declared earlier.
#[derive(Debug, PartialEq, Eq, Hash)]
pub enum Value {
    Number(i64),
    Identifier(String),
}

/// The mathematical content of a [`Value`].
pub enum ValueView {
    Number(i64),
    Identifier(Seq<char>),
}

impl View for Value {
    type V = ValueView;

    open spec fn view(&self) -> ValueView {
        match *self {
            Value::Number(n) => ValueView::Number(n),
            Value::Identifier(id) => ValueView::Identifier(id@),
        }
    }
}

#[derive(Debug, Clone, Copy, PartialEq, Eq, Hash)]
pub enum Integer {
    Integer,
    Hyper,
}

#[derive(Debug, Clone, Copy, PartialEq, Eq, Hash)]
pub enum Float {
    Single,
    Double,
    Quadruple,
}

/// The types that may discriminate a union.
#[derive(Debug, PartialEq)]
pub enum SwitchingType {
    Integer(Integer),
    Unsigned(Integer),
    Enum(String),
}

#[derive(Debug, PartialEq, Eq, Hash)]
pub enum NamedType {
    Typedef(String),
    Enum(String),
    Struct(String),
    Union(String),
}

#[derive(Debug, PartialEq, Eq, Hash)]
pub enum Type {
    Void,
    Integer(Integer),
    Unsigned(Integer),
    Float(Float),
    Boolean,
    String,
    Opaque,
    Pointer(Box<Type>),
    Array(Box<Type>, Value),
    VArray(Box<Type>, Option<Value>),
    Named(NamedType),
}

#[derive(Debug)]
pub struct Program {
    pub name: String,
    pub versions: IndexMap<Value, Version>,
}

#[derive(Debug)]
pub struct Version {
    pub name: String,
    pub procedures: IndexMap<Value, Procedure>,
}

#[derive(Debug)]
pub struct Procedure {
    pub name: String,
    pub return_type: Type,
    pub arguments: Vec<Type>,
}

pub type Enum = Vec<(String, Option<Value>)>;

pub type Struct = IndexMap<String, Type>;

#[derive(Debug)]
pub struct Union {
    pub value: String,
    pub switch_type: SwitchingType,
    pub arms: IndexMap<Value, (String, Type)>,
    pub default: Option<(String, Type)>,
}

#[derive(Debug)]
pub enum Definition {
    Const(String, Value),
    Typedef(String, Type),
    Enum(String, Enum),
    Struct(String, Struct),
    Union(String, Union),
    Program(Value, Program),
}

#[derive(Debug)]
pub struct Module {
    pub definitions: Vec<Definition>,
}

impl Clone for Value {
    fn clone(&self) -> (copy: Self)
        ensures
            copy == *self,
    {
        match self {
            Value::Number(n) => Value::Number(*n),
            Value::Identifier(id) => Value::Identifier(id.clone()),
        }
    }
}

impl Clone for SwitchingType {
    fn clone(&self) -> (copy: Self)
        ensures
            copy == *self,
    {
        match self {
            SwitchingType::Integer(i) => SwitchingType::Integer(*i),
            SwitchingType::Unsigned(i) => SwitchingType::Unsigned(*i),
            SwitchingType::Enum(name) => SwitchingType::Enum(name.clone()),
        }
    }
}

impl Clone for NamedType {
    fn clone(&self) -> (copy: Self)
        ensures
            copy == *self,
    {
        match self {
            NamedType::Typedef(name) => NamedType::Typedef(name.clone()),
            NamedType::Enum(name) => NamedType::Enum(name.clone()),
            NamedType::Struct(name) => NamedType::Struct(name.clone()),
            NamedType::Union(name) => NamedType::Union(name.clone()),
        }
    }
}

impl Clone for Type {
    fn clone(&self) -> (copy: Self)
        ensures
            copy == *self,
        decreases *self,
    {
        match self {
            Type::Void => Type::Void,
            Type::Integer(i) => Type::Integer(*i),
            Type::Unsigned(i) => Type::Unsigned(*i),
            Type::Float(f) => Type::Float(*f),
            Type::Boolean => Type::Boolean,
            Type::String => Type::String,
            Type::Opaque => Type::Opaque,
            Type::Pointer(inner) => {
                let inner: &Type = inner;
                Type::Pointer(Box::new(inner.clone()))
            },
            Type::Array(inner, size) => {
                let inner: &Type = inner;
                Type::Array(Box::new(inner.clone()), size.clone())
            },
            Type::VArray(inner, size) => {
                let inner: &Type = inner;
                let size = match size {
                    Some(size) => Some(size.clone()),
                    None => None,
                };
                Type::VArray(Box::new(inner.clone()), size)
            },
            Type::Named(named) => Type::Named(named.clone()),
        }
    }
}

impl Type {
    /// Whether this is the type without values.
    pub fn is_void(&self) -> (void: bool)
        ensures
            void == (*self == Type::Void),
    {
        match self {
            Type::Void => true,
            _ => false,
        }
    }

    /// How many pointers and arrays stand around the innermost type.
    pub open spec fn height(self) -> nat
        decreases self,
    {
        match self {
            Type::Pointer(inner) => inner.height() + 1,
            Type::Array(inner, _) => inner.height() + 1,
            Type::VArray(inner, _) => inner.height() + 1,
            _ => 0,
        }
    }
}

/// The fields of a structure, in the order of their insertion.
pub uninterp spec fn struct_fields(st: IndexMap<String, Type>) -> Seq<(String, Type)>;

/// The arms of a union, in the order of their insertion.
pub uninterp spec fn union_arms(arms: IndexMap<Value, (String, Type)>) -> Seq<(Value, (String, Type))>;

/// The procedures of a version, in the order of their insertion.
pub uninterp spec fn version_procedures(procedures: IndexMap<Value, Procedure>) -> Seq<(Value, Procedure)>;

/// The versions of a program, in the order of their insertion.
pub uninterp spec fn program_versions(versions: IndexMap<Value, Version>) -> Seq<(Value, Version)>;

/// What a union holds.
pub struct UnionView {
    pub value: Seq<char>,
    pub switch_type: SwitchingType,
    pub arms: Seq<(Value, (Seq<char>, Type))>,
    pub default: Option<(Seq<char>, Type)>,
}

/// What a procedure holds.
pub struct ProcedureView {
    pub name: Seq<char>,
    pub return_type: Type,
    pub arguments: Seq<Type>,
}

/// What a version holds.
pub struct VersionView {
    pub name: Seq<char>,
    pub procedures: Seq<(Value, ProcedureView)>,
}

/// What a program holds.
pub struct ProgramView {
    pub name: Seq<char>,
    pub versions: Seq<(Value, VersionView)>,
}

/// What a definition holds.
pub enum DefinitionView {
    Const(Seq<char>, Value),
    Typedef(Seq<char>, Type),
    Enum(Seq<char>, Seq<(Seq<char>, Option<Value>)>),
    Struct(Seq<char>, Seq<(Seq<char>, Type)>),
    Union(Seq<char>, UnionView),
    Program(Value, ProgramView),
}

/// The fields of a structure with the characters of their names.
pub open spec fn fields_view(fields: Seq<(String, Type)>) -> Seq<(Seq<char>, Type)> {
    Seq::new(fields.len(), |i: int| (fields[i].0@, fields[i].1))
}

/// The arms of a union with the characters of their names.
pub open spec fn arms_view(arms: Seq<(Value, (String, Type))>) -> Seq<(Value, (Seq<char>, Type))> {
    Seq::new(arms.len(), |i: int| (arms[i].0, (arms[i].1.0@, arms[i].1.1)))
}

/// The tags of an enum with the characters of their names.
pub open spec fn tags_view(tags: Seq<(String, Option<Value>)>) -> Seq<(Seq<char>, Option<Value>)> {
    Seq::new(tags.len(), |i: int| (tags[i].0@, tags[i].1))
}

/// The characters of an optional named type.
pub open spec fn arm_view(arm: Option<(String, Type)>) -> Option<(Seq<char>, Type)> {
    match arm {
        Some((name, tp)) => Some((name@, tp)),
        None => None,
    }
}

impl View for Union {
    type V = UnionView;

    open spec fn view(&self) -> UnionView {
        UnionView {
            value: self.value@,
            switch_type: self.switch_type,
            arms: arms_view(union_arms(self.arms)),
            default: arm_view(self.default),
        }
    }
}

impl View for Procedure {
    type V = ProcedureView;

    open spec fn view(&self) -> ProcedureView {
        ProcedureView { name: self.name@, return_type: self.return_type, arguments: self.arguments@ }
    }
}

/// The procedures of a version, each with what it holds.
pub open spec fn procedures_view(procedures: Seq<(Value, Procedure)>) -> Seq<(Value, ProcedureView)> {
    Seq::new(procedures.len(), |i: int| (procedures[i].0, procedures[i].1@))
}

impl View for Version {
    type V = VersionView;

    open spec fn view(&self) -> VersionView {
        VersionView { name: self.name@, procedures: procedures_view(version_procedures(self.procedures)) }
    }
}

/// The versions of a program, each with what it holds.
pub open spec fn versions_view(versions: Seq<(Value, Version)>) -> Seq<(Value, VersionView)> {
    Seq::new(versions.len(), |i: int| (versions[i].0, versions[i].1@))
}

impl View for Program {
    type V = ProgramView;

    open spec fn view(&self) -> ProgramView {
        ProgramView { name: self.name@, versions: versions_view(program_versions(self.versions)) }
    }
}

impl View for Definition {
    type V = DefinitionView;

    open spec fn view(&self) -> DefinitionView {
        match self {
            Definition::Const(name, value) => DefinitionView::Const(name@, *value),
            Definition::Typedef(name, tp) => DefinitionView::Typedef(name@, *tp),
            Definition::Enum(name, en) => DefinitionView::Enum(name@, tags_view(en@)),
            Definition::Struct(name, st) => DefinitionView::Struct(name@, fields_view(struct_fields(*st))),
            Definition::Union(name, un) => DefinitionView::Union(name@, un@),
            Definition::Program(value, program) => DefinitionView::Program(*value, program@),
        }
    }
}

/// The definitions of a module, each with what it holds.
pub open spec fn definitions_view(definitions: Seq<Definition>) -> Seq<DefinitionView> {
    Seq::new(definitions.len(), |i: int| definitions[i]@)
}

impl View for Module {
    type V = Seq<DefinitionView>;

    open spec fn view(&self) -> Seq<DefinitionView> {
        definitions_view(self.definitions@)
    }
}

/// Whether some entry is filed under the name `name`.
pub open spec fn has_name<T>(entries: Seq<(String, T)>, name: Seq<char>) -> bool {
    exists|i: int| 0 <= i < entries.len() && (#[trigger] entries[i]).0@ == name
}

/// Whether some entry is filed under a value equal to `value`.
pub open spec fn has_value<T>(entries: Seq<(Value, T)>, value: ValueView) -> bool {
    exists|i: int| 0 <= i < entries.len() && (#[trigger] entries[i]).0@ == value
}

pub fn new_enum() -> (en: Enum)
    ensures
        en@ == Seq::<(String, Option<Value>)>::empty(),
{
    Vec::new()
}

/// `IndexMap::new`: the new map holds nothing.
#[verifier::external_body]
pub fn new_struct() -> (st: Struct)
    ensures
        struct_fields(st) == Seq::<(String, Type)>::empty(),
{
    IndexMap::new()
}

/// `IndexMap::insert` with a key that the map does not hold yet: the pair
/// comes last in order and the earlier pairs stay as they were.
#[verifier::external_body]
pub(crate) fn struct_insert(st: &mut Struct, name: String, tp: Type)
    requires
        !has_name(struct_fields(*old(st)), name@),
    ensures
        struct_fields(*final(st)) == struct_fields(*old(st)).push((name, tp)),
{
    st.insert(name, tp);
}

/// `IndexMap::contains_key`: whether a field of that name is held, names
/// being equal when their characters are.
#[verifier::external_body]
pub(crate) fn struct_contains(st: &Struct, name: &String) -> (found: bool)
    ensures
        found == has_name(struct_fields(*st), name@),
{
    st.contains_key(name)
}

/// `IndexMap::len`: the number of pairs held.
#[verifier::external_body]
pub(crate) fn struct_len(st: &Struct) -> (n: usize)
    ensures
        n == struct_fields(*st).len(),
{
    st.len()
}

/// `IndexMap::get_index`: the pair at a position in insertion order, or
/// nothing from the length on.
#[verifier::external_body]
pub(crate) fn struct_field(st: &Struct, index: usize) -> (field: Option<(&String, &Type)>)
    ensures
        match field {
            Some((name, tp)) => index < struct_fields(*st).len()
                && *name == struct_fields(*st)[index as int].0
                && *tp == struct_fields(*st)[index as int].1,
            None => index >= struct_fields(*st).len(),
        },
{
    st.get_index(index)
}

pub fn new_union() -> (un: Union)
    ensures
        un.value@ == Seq::<char>::empty(),
        un.switch_type == SwitchingType::Integer(Integer::Integer),
        union_arms(un.arms) == Seq::<(Value, (String, Type))>::empty(),
        un.default is None,
{
    Union {
        value: String::new(),
        switch_type: SwitchingType::Integer(Integer::Integer),
        arms: new_arms(),
        default: None,
    }
}

/// `IndexMap::new`: the new map holds nothing.
#[verifier::external_body]
pub(crate) fn new_arms() -> (arms: IndexMap<Value, (String, Type)>)
    ensures
        union_arms(arms) == Seq::<(Value, (String, Type))>::empty(),
{
    IndexMap::new()
}

/// `IndexMap::insert` with a key that the map does not hold yet: the pair
/// comes last in order and the earlier pairs stay as they were.
#[verifier::external_body]
pub(crate) fn arms_insert(arms: &mut IndexMap<Value, (String, Type)>, value: Value, arm: (String, Type))
    requires
        !has_value(union_arms(*old(arms)), value@),
    ensures
        union_arms(*final(arms)) == union_arms(*old(arms)).push((value, arm)),
{
    arms.insert(value, arm);
}

/// `IndexMap::contains_key`: whether an arm is held under an equal value,
/// values being equal when they are the same number or the same characters.
#[verifier::external_body]
pub(crate) fn arms_contains(arms: &IndexMap<Value, (String, Type)>, value: &Value) -> (found: bool)
    ensures
        found == has_value(union_arms(*arms), value@),
{
    arms.contains_key(value)
}

/// `IndexMap::len`: the number of pairs held.
#[verifier::external_body]
pub(crate) fn arms_len(arms: &IndexMap<Value, (String, Type)>) -> (n: usize)
    ensures
        n == union_arms(*arms).len(),
{
    arms.len()
}

/// `IndexMap::get_index`: the pair at a position in insertion order, or
/// nothing from the length on.
#[verifier::external_body]
pub(crate) fn arms_entry(arms: &IndexMap<Value, (String, Type)>, index: usize) -> (entry: Option<
    (&Value, &(String, Type)),
>)
    ensures
        match entry {
            Some((value, arm)) => index < union_arms(*arms).len()
                && *value == union_arms(*arms)[index as int].0
                && *arm == union_arms(*arms)[index as int].1,
            None => index >= union_arms(*arms).len(),
        },
{
    arms.get_index(index)
}

pub fn new_version() -> (version: Version)
    ensures
        version.name@ == Seq::<char>::empty(),
        version_procedures(version.procedures) == Seq::<(Value, Procedure)>::empty(),
{
    Version { name: String::new(), procedures: new_procedures() }
}

/// `IndexMap::new`: the new map holds nothing.
#[verifier::external_body]
pub(crate) fn new_procedures() -> (procedures: IndexMap<Value, Procedure>)
    ensures
        version_procedures(procedures) == Seq::<(Value, Procedure)>::empty(),
{
    IndexMap::new()
}

/// `IndexMap::insert` with a key that the map does not hold yet: the pair
/// comes last in order and the earlier pairs stay as they were.
#[verifier::external_body]
pub(crate) fn procedures_insert(procedures: &mut IndexMap<Value, Procedure>, value: Value, procedure: Procedure)
    requires
        !has_value(version_procedures(*old(procedures)), value@),
    ensures
        version_procedures(*final(procedures)) == version_procedures(*old(procedures)).push(
            (value, procedure),
        ),
{
    procedures.insert(value, procedure);
}

/// `IndexMap::len`: the number of pairs held.
#[verifier::external_body]
pub(crate) fn procedures_len(procedures: &IndexMap<Value, Procedure>) -> (n: usize)
    ensures
        n == version_procedures(*procedures).len(),
{
    procedures.len()
}

/// `IndexMap::get_index`: the pair at a position in insertion order, or
/// nothing from the length on.
#[verifier::external_body]
pub(crate) fn procedures_entry(procedures: &IndexMap<Value, Procedure>, index: usize) -> (entry: Option<
    (&Value, &Procedure),
>)
    ensures
        match entry {
            Some((value, procedure)) => index < version_procedures(*procedures).len()
                && *value == version_procedures(*procedures)[index as int].0
                && *procedure == version_procedures(*procedures)[index as int].1,
            None => index >= version_procedures(*procedures).len(),
        },
{
    procedures.get_index(index)
}

pub fn new_program() -> (program: Program)
    ensures
        program.name@ == Seq::<char>::empty(),
        program_versions(program.versions) == Seq::<(Value, Version)>::empty(),
{
    Program { name: String::new(), versions: new_versions() }
}

/// `IndexMap::new`: the new map holds nothing.
#[verifier::external_body]
pub(crate) fn new_versions() -> (versions: IndexMap<Value, Version>)
    ensures
        program_versions(versions) == Seq::<(Value, Version)>::empty(),
{
    IndexMap::new()
}

/// `IndexMap::insert` with a key that the map does not hold yet: the pair
/// comes last in order and the earlier pairs stay as they were.
#[verifier::external_body]
pub(crate) fn versions_insert(versions: &mut IndexMap<Value, Version>, value: Value, version: Version)
    requires
        !has_value(program_versions(*old(versions)), value@),
    ensures
        program_versions(*final(versions)) == program_versions(*old(versions)).push((value, version)),
{
    versions.insert(value, version);
}

/// `IndexMap::len`: the number of pairs held.
#[verifier::external_body]
pub(crate) fn versions_len(versions: &IndexMap<Value, Version>) -> (n: usize)
    ensures
        n == program_versions(*versions).len(),
{
    versions.len()
}

/// `IndexMap::get_index`: the pair at a position in insertion order, or
/// nothing from the length on.
#[verifier::external_body]
pub(crate) fn versions_entry(versions: &IndexMap<Value, Version>, index: usize) -> (entry: Option<
    (&Value, &Version),
>)
    ensures
        match entry {
            Some((value, version)) => index < program_versions(*versions).len()
                && *value == program_versions(*versions)[index as int].0
                && *version == program_versions(*versions)[index as int].1,
            None => index >= program_versions(*versions).len(),
        },
{
    versions.get_index(index)
}

pub fn new_procedure() -> (procedure: Procedure)
    ensures
        procedure.name@ == Seq::<char>::empty(),
        procedure.return_type == Type::Void,
        procedure.arguments@ == Seq::<Type>::empty(),
{
    Procedure { name: String::new(), return_type: Type::Void, arguments: Vec::new() }
}

pub fn new_module() -> (module: Module)
    ensures
        module.definitions@ == Seq::<Definition>::empty(),
{
    Module { definitions: Vec::new() }
}

} // verus!
