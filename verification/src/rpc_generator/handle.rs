//! The definitions of a module filed by kind, each kind in the order of
//! the source, and the order in which the types were declared.

use vstd::prelude::*;
use indexmap::IndexMap;
use crate::rpc::{
    Definition, Enum, Float, NamedType, Procedure, Program, Struct, Type, Union, Value, ValueView,
    Version, new_struct, struct_fields, struct_field, struct_len, union_arms, arms_entry, arms_len,
    program_versions, version_procedures, procedures_entry, procedures_len, versions_entry,
    versions_len,
};

use crate::rpc_generator::types::asc::{is_printable, printable};
use crate::vectors::reversed;
use crate::rpc_generator::types::printables::{arm_printable, fields_printable, union_printable};

verus! {

/// The name of a declared type with its kind.
pub enum TypeName {
    Typedef(String),
    Struct(String),
    Union(String),
}

pub struct Handle {
    pub constants: IndexMap<String, Value>,
    pub typedefs: IndexMap<String, Type>,
    pub structs: IndexMap<String, Struct>,
    pub unions: IndexMap<String, Union>,
    pub enums: IndexMap<String, Enum>,
    pub programs: IndexMap<Value, Program>,
    pub order: Vec<TypeName>,
}

/// The constants of a map with their names, in the order in which the
/// names came in.
pub uninterp spec fn constant_entries(constants: IndexMap<String, Value>) -> Seq<(String, Value)>;

/// The structures of a map with their names, in the order in which the
/// names came in.
pub uninterp spec fn struct_entries(structs: IndexMap<String, Struct>) -> Seq<(String, Struct)>;

/// The unions of a map with their names, in the order in which the names
/// came in.
pub uninterp spec fn union_entries(unions: IndexMap<String, Union>) -> Seq<(String, Union)>;

/// The enumerations of a map with their names, in the order in which the
/// names came in.
pub uninterp spec fn enum_entries(enums: IndexMap<String, Enum>) -> Seq<(String, Enum)>;

/// The programs of a map with their numbers, in the order in which the
/// numbers came in.
pub uninterp spec fn program_entries(programs: IndexMap<Value, Program>) -> Seq<(Value, Program)>;

/// The first position at or after `from` that is filed under `name`.
pub open spec fn find_from<T>(entries: Seq<(String, T)>, name: Seq<char>, from: int) -> Option<int>
    decreases entries.len() - from,
{
    if from < 0 || from >= entries.len() {
        None
    } else if entries[from].0@ == name {
        Some(from)
    } else {
        find_from(entries, name, from + 1)
    }
}

/// What is filed under `name`, if anything is.
pub open spec fn lookup<T>(entries: Seq<(String, T)>, name: Seq<char>) -> Option<T> {
    match find_from(entries, name, 0) {
        Some(i) => Some(entries[i].1),
        None => None,
    }
}

/// The table after `item` was filed under `name`: in the place of what was
/// filed there, or last.
pub open spec fn stored<T>(entries: Seq<(String, T)>, name: String, item: T) -> Seq<(String, T)> {
    match find_from(entries, name@, 0) {
        Some(i) => entries.update(i, (entries[i].0, item)),
        None => entries.push((name, item)),
    }
}

/// The first position at or after `from` that is filed under `value`.
pub open spec fn find_value_from<T>(entries: Seq<(Value, T)>, value: ValueView, from: int) -> Option<int>
    decreases entries.len() - from,
{
    if from < 0 || from >= entries.len() {
        None
    } else if entries[from].0@ == value {
        Some(from)
    } else {
        find_value_from(entries, value, from + 1)
    }
}

/// The table after `item` was filed under `value`: in the place of what
/// was filed there, or last.
pub open spec fn stored_value<T>(entries: Seq<(Value, T)>, value: Value, item: T) -> Seq<(Value, T)> {
    match find_value_from(entries, value@, 0) {
        Some(i) => entries.update(i, (entries[i].0, item)),
        None => entries.push((value, item)),
    }
}

/// Whether two values are the same number or the same name.
pub fn same_value(a: &Value, b: &Value) -> (same: bool)
    ensures
        same == (a@ == b@),
{
    match a {
        Value::Number(x) => match b {
            Value::Number(y) => *x == *y,
            Value::Identifier(_) => false,
        },
        Value::Identifier(x) => match b {
            Value::Number(_) => false,
            Value::Identifier(y) => *x == *y,
        },
    }
}

/// `IndexMap::new`: a map that holds nothing.
#[verifier::external_body]
pub(crate) fn new_constants() -> (constants: IndexMap<String, Value>)
    ensures
        constant_entries(constants) == Seq::<(String, Value)>::empty(),
{
    IndexMap::new()
}

/// `IndexMap::insert`: under a key that the map holds, the new item takes
/// the place of the old one and the key held stays where it is; under
/// another key the pair comes last.
#[verifier::external_body]
pub(crate) fn constants_store(constants: &mut IndexMap<String, Value>, name: String, item: Value)
    ensures
        constant_entries(*final(constants)) == stored(constant_entries(*old(constants)), name, item),
{
    constants.insert(name, item);
}

/// `IndexMap::get`: the item held under an equal key, keys being equal
/// when their characters are, or nothing where no key is equal.
#[verifier::external_body]
pub(crate) fn constant_named<'a>(constants: &'a IndexMap<String, Value>, name: &str) -> (found: Option<&'a Value>)
    ensures
        match found {
            Some(item) => lookup(constant_entries(*constants), name@) == Some(*item)
                && lookup(constant_entries(*constants), name@)->Some_0 == *item
                && exists|i: int|
                0 <= i < constant_entries(*constants).len() && (#[trigger] constant_entries(*constants)[i]).1 == *item,
            None => lookup(constant_entries(*constants), name@) is None,
        },
{
    constants.get(name)
}

/// `IndexMap::len`: the number of pairs held.
#[verifier::external_body]
pub(crate) fn constants_len(constants: &IndexMap<String, Value>) -> (n: usize)
    ensures
        n == constant_entries(*constants).len(),
{
    constants.len()
}

/// `IndexMap::get_index`: the pair at a position in insertion order, or
/// nothing from the length on.
#[verifier::external_body]
pub(crate) fn constants_entry(constants: &IndexMap<String, Value>, index: usize) -> (entry: Option<(&String, &Value)>)
    ensures
        match entry {
            Some((key, item)) => index < constant_entries(*constants).len()
                && *key == constant_entries(*constants)[index as int].0
                && *item == constant_entries(*constants)[index as int].1,
            None => index >= constant_entries(*constants).len(),
        },
{
    constants.get_index(index)
}

/// `IndexMap::insert`: under a key that the map holds, the new item takes
/// the place of the old one and the key held stays where it is; under
/// another key the pair comes last.
#[verifier::external_body]
pub(crate) fn typedefs_store(typedefs: &mut IndexMap<String, Type>, name: String, item: Type)
    ensures
        struct_fields(*final(typedefs)) == stored(struct_fields(*old(typedefs)), name, item),
{
    typedefs.insert(name, item);
}

/// `IndexMap::get`: the item held under an equal key, keys being equal
/// when their characters are, or nothing where no key is equal.
#[verifier::external_body]
pub(crate) fn typedef_named<'a>(typedefs: &'a IndexMap<String, Type>, name: &str) -> (found: Option<&'a Type>)
    ensures
        match found {
            Some(item) => lookup(struct_fields(*typedefs), name@) == Some(*item)
                && lookup(struct_fields(*typedefs), name@)->Some_0 == *item
                && exists|i: int|
                0 <= i < struct_fields(*typedefs).len() && (#[trigger] struct_fields(*typedefs)[i]).1 == *item,
            None => lookup(struct_fields(*typedefs), name@) is None,
        },
{
    typedefs.get(name)
}

/// `IndexMap::new`: a map that holds nothing.
#[verifier::external_body]
pub(crate) fn new_structs() -> (structs: IndexMap<String, Struct>)
    ensures
        struct_entries(structs) == Seq::<(String, Struct)>::empty(),
{
    IndexMap::new()
}

/// `IndexMap::insert`: under a key that the map holds, the new item takes
/// the place of the old one and the key held stays where it is; under
/// another key the pair comes last.
#[verifier::external_body]
pub(crate) fn structs_store(structs: &mut IndexMap<String, Struct>, name: String, item: Struct)
    ensures
        struct_entries(*final(structs)) == stored(struct_entries(*old(structs)), name, item),
{
    structs.insert(name, item);
}

/// `IndexMap::get`: the item held under an equal key, keys being equal
/// when their characters are, or nothing where no key is equal.
#[verifier::external_body]
pub(crate) fn struct_named<'a>(structs: &'a IndexMap<String, Struct>, name: &str) -> (found: Option<&'a Struct>)
    ensures
        match found {
            Some(item) => lookup(struct_entries(*structs), name@) == Some(*item)
                && lookup(struct_entries(*structs), name@)->Some_0 == *item
                && exists|i: int|
                0 <= i < struct_entries(*structs).len() && (#[trigger] struct_entries(*structs)[i]).1 == *item,
            None => lookup(struct_entries(*structs), name@) is None,
        },
{
    structs.get(name)
}

/// `IndexMap::len`: the number of pairs held.
#[verifier::external_body]
pub(crate) fn structs_len(structs: &IndexMap<String, Struct>) -> (n: usize)
    ensures
        n == struct_entries(*structs).len(),
{
    structs.len()
}

/// `IndexMap::get_index`: the pair at a position in insertion order, or
/// nothing from the length on.
#[verifier::external_body]
pub(crate) fn structs_entry(structs: &IndexMap<String, Struct>, index: usize) -> (entry: Option<(&String, &Struct)>)
    ensures
        match entry {
            Some((key, item)) => index < struct_entries(*structs).len()
                && *key == struct_entries(*structs)[index as int].0
                && *item == struct_entries(*structs)[index as int].1,
            None => index >= struct_entries(*structs).len(),
        },
{
    structs.get_index(index)
}

/// `IndexMap::new`: a map that holds nothing.
#[verifier::external_body]
pub(crate) fn new_unions() -> (unions: IndexMap<String, Union>)
    ensures
        union_entries(unions) == Seq::<(String, Union)>::empty(),
{
    IndexMap::new()
}

/// `IndexMap::insert`: under a key that the map holds, the new item takes
/// the place of the old one and the key held stays where it is; under
/// another key the pair comes last.
#[verifier::external_body]
pub(crate) fn unions_store(unions: &mut IndexMap<String, Union>, name: String, item: Union)
    ensures
        union_entries(*final(unions)) == stored(union_entries(*old(unions)), name, item),
{
    unions.insert(name, item);
}

/// `IndexMap::get`: the item held under an equal key, keys being equal
/// when their characters are, or nothing where no key is equal.
#[verifier::external_body]
pub(crate) fn union_named<'a>(unions: &'a IndexMap<String, Union>, name: &str) -> (found: Option<&'a Union>)
    ensures
        match found {
            Some(item) => lookup(union_entries(*unions), name@) == Some(*item)
                && lookup(union_entries(*unions), name@)->Some_0 == *item
                && exists|i: int|
                0 <= i < union_entries(*unions).len() && (#[trigger] union_entries(*unions)[i]).1 == *item,
            None => lookup(union_entries(*unions), name@) is None,
        },
{
    unions.get(name)
}

/// `IndexMap::len`: the number of pairs held.
#[verifier::external_body]
pub(crate) fn unions_len(unions: &IndexMap<String, Union>) -> (n: usize)
    ensures
        n == union_entries(*unions).len(),
{
    unions.len()
}

/// `IndexMap::get_index`: the pair at a position in insertion order, or
/// nothing from the length on.
#[verifier::external_body]
pub(crate) fn unions_entry(unions: &IndexMap<String, Union>, index: usize) -> (entry: Option<(&String, &Union)>)
    ensures
        match entry {
            Some((key, item)) => index < union_entries(*unions).len()
                && *key == union_entries(*unions)[index as int].0
                && *item == union_entries(*unions)[index as int].1,
            None => index >= union_entries(*unions).len(),
        },
{
    unions.get_index(index)
}

/// `IndexMap::new`: a map that holds nothing.
#[verifier::external_body]
pub(crate) fn new_enums() -> (enums: IndexMap<String, Enum>)
    ensures
        enum_entries(enums) == Seq::<(String, Enum)>::empty(),
{
    IndexMap::new()
}

/// `IndexMap::insert`: under a key that the map holds, the new item takes
/// the place of the old one and the key held stays where it is; under
/// another key the pair comes last.
#[verifier::external_body]
pub(crate) fn enums_store(enums: &mut IndexMap<String, Enum>, name: String, item: Enum)
    ensures
        enum_entries(*final(enums)) == stored(enum_entries(*old(enums)), name, item),
{
    enums.insert(name, item);
}

/// `IndexMap::len`: the number of pairs held.
#[verifier::external_body]
pub(crate) fn enums_len(enums: &IndexMap<String, Enum>) -> (n: usize)
    ensures
        n == enum_entries(*enums).len(),
{
    enums.len()
}

/// `IndexMap::get_index`: the pair at a position in insertion order, or
/// nothing from the length on.
#[verifier::external_body]
pub(crate) fn enums_entry(enums: &IndexMap<String, Enum>, index: usize) -> (entry: Option<(&String, &Enum)>)
    ensures
        match entry {
            Some((key, item)) => index < enum_entries(*enums).len()
                && *key == enum_entries(*enums)[index as int].0
                && *item == enum_entries(*enums)[index as int].1,
            None => index >= enum_entries(*enums).len(),
        },
{
    enums.get_index(index)
}

/// `IndexMap::new`: a map that holds nothing.
#[verifier::external_body]
pub(crate) fn new_programs() -> (programs: IndexMap<Value, Program>)
    ensures
        program_entries(programs) == Seq::<(Value, Program)>::empty(),
{
    IndexMap::new()
}

/// `IndexMap::insert`: under a key that the map holds, the new item takes
/// the place of the old one and the key held stays where it is; under
/// another key the pair comes last.
#[verifier::external_body]
pub(crate) fn programs_store(programs: &mut IndexMap<Value, Program>, value: Value, item: Program)
    ensures
        program_entries(*final(programs)) == stored_value(program_entries(*old(programs)), value, item),
{
    programs.insert(value, item);
}

/// `IndexMap::len`: the number of pairs held.
#[verifier::external_body]
pub(crate) fn programs_len(programs: &IndexMap<Value, Program>) -> (n: usize)
    ensures
        n == program_entries(*programs).len(),
{
    programs.len()
}

/// `IndexMap::get_index`: the pair at a position in insertion order, or
/// nothing from the length on.
#[verifier::external_body]
pub(crate) fn programs_entry(programs: &IndexMap<Value, Program>, index: usize) -> (entry: Option<(&Value, &Program)>)
    ensures
        match entry {
            Some((key, item)) => index < program_entries(*programs).len()
                && *key == program_entries(*programs)[index as int].0
                && *item == program_entries(*programs)[index as int].1,
            None => index >= program_entries(*programs).len(),
        },
{
    programs.get_index(index)
}

/// What a handle holds.
pub struct Tables {
    pub constants: Seq<(String, Value)>,
    pub typedefs: Seq<(String, Type)>,
    pub structs: Seq<(String, Struct)>,
    pub unions: Seq<(String, Union)>,
    pub enums: Seq<(String, Enum)>,
    pub programs: Seq<(Value, Program)>,
    pub order: Seq<TypeName>,
}

impl View for Handle {
    type V = Tables;

    open spec fn view(&self) -> Tables {
        Tables {
            constants: constant_entries(self.constants),
            typedefs: struct_fields(self.typedefs),
            structs: struct_entries(self.structs),
            unions: union_entries(self.unions),
            enums: enum_entries(self.enums),
            programs: program_entries(self.programs),
            order: self.order@,
        }
    }
}

impl Tables {
    /// Tables without definitions.
    pub open spec fn empty() -> Tables {
        Tables {
            constants: Seq::empty(),
            typedefs: Seq::empty(),
            structs: Seq::empty(),
            unions: Seq::empty(),
            enums: Seq::empty(),
            programs: Seq::empty(),
            order: Seq::empty(),
        }
    }

    /// The tables after one more definition was filed: under its name in
    /// the table of its kind and, for a typedef, a structure or a union,
    /// last in the order of types.
    pub open spec fn filed(self, def: Definition) -> Tables {
        match def {
            Definition::Const(name, value) => Tables {
                constants: stored(self.constants, name, value),
                ..self
            },
            Definition::Typedef(name, tp) => Tables {
                typedefs: stored(self.typedefs, name, tp),
                order: self.order.push(TypeName::Typedef(name)),
                ..self
            },
            Definition::Enum(name, en) => Tables { enums: stored(self.enums, name, en), ..self },
            Definition::Struct(name, st) => Tables {
                structs: stored(self.structs, name, st),
                order: self.order.push(TypeName::Struct(name)),
                ..self
            },
            Definition::Union(name, un) => Tables {
                unions: stored(self.unions, name, un),
                order: self.order.push(TypeName::Union(name)),
                ..self
            },
            Definition::Program(value, program) => Tables {
                programs: stored_value(self.programs, value, program),
                ..self
            },
        }
    }

    /// The tables after the first `n` of `defs` were filed in order.
    pub open spec fn filed_all(defs: Seq<Definition>, n: nat) -> Tables
        decreases n,
    {
        if n == 0 || n > defs.len() {
            Tables::empty()
        } else {
            Tables::filed_all(defs, (n - 1) as nat).filed(defs[n - 1])
        }
    }

    /// How many names deep a type of these tables can lead: the number of
    /// typedefs, structures and unions, as far as a machine word holds it.
    pub open spec fn depth(self) -> nat {
        let n = self.typedefs.len() + self.structs.len() + self.unions.len();
        if n > usize::MAX {
            usize::MAX as nat
        } else {
            n
        }
    }

    /// Whether every name that decides if `tp` needs dynamic memory is
    /// declared, following at most `depth` names in a row. What stands
    /// behind a pointer or in a variable-length array decides nothing.
    pub open spec fn resolves_within(self, tp: Type, depth: nat) -> bool
        decreases depth, tp,
    {
        match tp {
            Type::Array(inner, _) => self.resolves_within(*inner, depth),
            Type::Named(NamedType::Typedef(name)) => depth > 0 && match lookup(
                self.typedefs,
                name@,
            ) {
                Some(def) => self.resolves_within(def, (depth - 1) as nat),
                None => false,
            },
            Type::Named(NamedType::Struct(name)) => depth > 0 && match lookup(
                self.structs,
                name@,
            ) {
                Some(st) => forall|i: int|
                    0 <= i < struct_fields(st).len() ==> self.resolves_within(
                        #[trigger] struct_fields(st)[i].1,
                        (depth - 1) as nat,
                    ),
                None => false,
            },
            Type::Named(NamedType::Union(name)) => depth > 0 && match lookup(self.unions, name@) {
                Some(un) => (forall|i: int|
                    0 <= i < union_arms(un.arms).len() ==> self.resolves_within(
                        #[trigger] union_arms(un.arms)[i].1.1,
                        (depth - 1) as nat,
                    )) && match un.default {
                    Some((_, tp)) => self.resolves_within(tp, (depth - 1) as nat),
                    None => true,
                },
                None => false,
            },
            _ => true,
        }
    }

    /// Whether the names that decide if `tp` needs dynamic memory are all
    /// declared and lead back to none of themselves.
    pub open spec fn resolves(self, tp: Type) -> bool {
        self.resolves_within(tp, self.depth())
    }

    /// Whether wire code can be written for `tp`, following at most `depth`
    /// names in a row: every name in it is declared, no structure or union
    /// in it is empty, no float is quadruple, a string or an opaque
    /// stands only as the element of an array (an opaque) or of a
    /// variable-length array (either), and what a pointer points to or a
    /// variable-length array holds can be written in C.
    pub open spec fn supports_within(self, tp: Type, depth: nat) -> bool
        decreases depth, tp,
    {
        match tp {
            Type::Void | Type::Integer(_) | Type::Unsigned(_) | Type::Boolean => true,
            Type::Float(f) => f != Float::Quadruple,
            Type::String | Type::Opaque => false,
            Type::Pointer(inner) => printable(*inner) && self.supports_within(*inner, depth),
            Type::Array(inner, _) => *inner == Type::Opaque || self.supports_within(*inner, depth),
            Type::VArray(inner, _) => *inner == Type::Opaque || *inner == Type::String || (printable(
                *inner,
            ) && self.supports_within(*inner, depth)),
            Type::Named(NamedType::Enum(_)) => true,
            Type::Named(NamedType::Typedef(name)) => depth > 0 && match lookup(
                self.typedefs,
                name@,
            ) {
                Some(def) => self.supports_within(def, (depth - 1) as nat),
                None => false,
            },
            Type::Named(NamedType::Struct(name)) => depth > 0 && match lookup(
                self.structs,
                name@,
            ) {
                Some(st) => struct_fields(st).len() > 0 && forall|i: int|
                    0 <= i < struct_fields(st).len() ==> self.supports_within(
                        #[trigger] struct_fields(st)[i].1,
                        (depth - 1) as nat,
                    ),
                None => false,
            },
            Type::Named(NamedType::Union(name)) => depth > 0 && match lookup(self.unions, name@) {
                Some(un) => (union_arms(un.arms).len() > 0 || un.default is Some) && (forall|
                    i: int,
                |
                    0 <= i < union_arms(un.arms).len() ==> self.supports_within(
                        #[trigger] union_arms(un.arms)[i].1.1,
                        (depth - 1) as nat,
                    )) && match un.default {
                    Some((_, tp)) => self.supports_within(tp, (depth - 1) as nat),
                    None => true,
                },
                None => false,
            },
        }
    }

    /// Whether wire code can be written for `tp` with these tables.
    pub open spec fn supports(self, tp: Type) -> bool {
        self.supports_within(tp, self.depth())
    }

    /// Whether every declared type can be written in C: no typedef, no
    /// field of a structure and no arm of a union holds a quadruple float.
    pub open spec fn declarable(self) -> bool {
        &&& forall|i: int|
            0 <= i < self.typedefs.len() ==> printable((#[trigger] self.typedefs[i]).1)
        &&& forall|i: int|
            0 <= i < self.structs.len() ==> fields_printable(
                struct_fields((#[trigger] self.structs[i]).1),
            )
        &&& forall|i: int|
            0 <= i < self.unions.len() ==> union_printable((#[trigger] self.unions[i]).1)
    }

    /// Whether the need of dynamic memory can be decided for the result
    /// and for every argument of the procedure.
    pub open spec fn resolves_procedure(self, procedure: Procedure) -> bool {
        &&& self.resolves(procedure.return_type)
        &&& forall|i: int|
            0 <= i < procedure.arguments@.len() ==> self.resolves(#[trigger] procedure.arguments@[i])
    }

    /// Whether the code of a procedure can be written: wire code for its
    /// result and for every argument, and their types in C, where a
    /// result without values needs none.
    pub open spec fn supports_procedure(self, procedure: Procedure) -> bool {
        &&& self.supports(procedure.return_type)
        &&& procedure.return_type == Type::Void || printable(procedure.return_type)
        &&& forall|i: int|
            0 <= i < procedure.arguments@.len() ==> self.supports(#[trigger] procedure.arguments@[i])
                && printable(procedure.arguments@[i])
    }

    /// Whether wire code can be written for every procedure of the version.
    pub open spec fn supports_version(self, version: Version) -> bool {
        forall|i: int|
            0 <= i < version_procedures(version.procedures).len() ==> self.supports_procedure(
                (#[trigger] version_procedures(version.procedures)[i]).1,
            )
    }

    /// Whether wire code can be written for every version of the program.
    pub open spec fn supports_program(self, program: Program) -> bool {
        forall|i: int|
            0 <= i < program_versions(program.versions).len() ==> self.supports_version(
                (#[trigger] program_versions(program.versions)[i]).1,
            )
    }
}

/// A type that wire code can be written for lets its need of dynamic
/// memory be decided.
pub proof fn supported_resolves(tables: Tables, tp: Type, depth: nat)
    requires
        tables.supports_within(tp, depth),
    ensures
        tables.resolves_within(tp, depth),
    decreases depth, tp,
{
    match tp {
        Type::Array(inner, _) => {
            if *inner != Type::Opaque {
                supported_resolves(tables, *inner, depth);
            }
        },
        Type::Named(NamedType::Typedef(name)) => {
            supported_resolves(tables, lookup(tables.typedefs, name@).unwrap(), (depth - 1) as nat);
        },
        Type::Named(NamedType::Struct(name)) => {
            let st = lookup(tables.structs, name@).unwrap();
            assert forall|i: int| 0 <= i < struct_fields(st).len() implies tables.resolves_within(
                #[trigger] struct_fields(st)[i].1,
                (depth - 1) as nat,
            ) by {
                supported_resolves(tables, struct_fields(st)[i].1, (depth - 1) as nat);
            }
        },
        Type::Named(NamedType::Union(name)) => {
            let un = lookup(tables.unions, name@).unwrap();
            assert forall|i: int| 0 <= i < union_arms(un.arms).len() implies tables.resolves_within(
                #[trigger] union_arms(un.arms)[i].1.1,
                (depth - 1) as nat,
            ) by {
                supported_resolves(tables, union_arms(un.arms)[i].1.1, (depth - 1) as nat);
            }
            match un.default {
                Some((_, tp)) => {
                    supported_resolves(tables, tp, (depth - 1) as nat);
                },
                None => {},
            }
        },
        _ => {},
    }
}

impl Handle {
    /// A handle without definitions.
    pub fn new() -> (handle: Self)
        ensures
            handle@ == Tables::empty(),
    {
        Handle {
            constants: new_constants(),
            typedefs: new_struct(),
            structs: new_structs(),
            unions: new_unions(),
            enums: new_enums(),
            programs: new_programs(),
            order: Vec::new(),
        }
    }

    pub fn read_definition(&mut self, def: Definition)
        ensures
            final(self)@ == old(self)@.filed(def),
    {
        match def {
            Definition::Const(name, value) => {
                constants_store(&mut self.constants, name, value);
            },
            Definition::Typedef(name, tp) => {
                self.order.push(TypeName::Typedef(name.clone()));
                typedefs_store(&mut self.typedefs, name, tp);
            },
            Definition::Enum(name, en) => {
                enums_store(&mut self.enums, name, en);
            },
            Definition::Struct(name, st) => {
                self.order.push(TypeName::Struct(name.clone()));
                structs_store(&mut self.structs, name, st);
            },
            Definition::Union(name, un) => {
                self.order.push(TypeName::Union(name.clone()));
                unions_store(&mut self.unions, name, un);
            },
            Definition::Program(value, program) => {
                programs_store(&mut self.programs, value, program);
            },
        }
    }

    /// Files the definitions of a module in their order.
    pub fn from_iter(definitions: Vec<Definition>) -> (handle: Self)
        ensures
            handle@ == Tables::filed_all(definitions@, definitions@.len()),
    {
        let ghost all = definitions@;
        let total = definitions.len();
        let mut rest = reversed(definitions);
        let mut handle = Handle::new();
        let mut k: usize = 0;
        while rest.len() > 0
            invariant
                total == all.len(),
                k + rest@.len() == all.len(),
                forall|i: int| 0 <= i < rest@.len() ==> rest@[i] == all[all.len() - 1 - i],
                handle@ == Tables::filed_all(all, k as nat),
            decreases rest@.len(),
        {
            let def = rest.pop().unwrap();
            assert(def == all[k as int]);
            handle.read_definition(def);
            k = k + 1;
        }
        handle
    }

    /// How many names deep a type of this handle can lead.
    pub fn depth(&self) -> (depth: usize)
        ensures
            depth == self@.depth(),
    {
        let a = struct_len(&self.typedefs);
        let b = structs_len(&self.structs);
        let c = unions_len(&self.unions);
        if a > usize::MAX - b {
            usize::MAX
        } else if a + b > usize::MAX - c {
            usize::MAX
        } else {
            a + b + c
        }
    }

    /// Decides whether wire code can be written for `tp`, following at
    /// most `depth` names in a row.
    #[verifier::loop_isolation(false)]
    pub fn supports_within(&self, tp: &Type, depth: usize) -> (ok: bool)
        ensures
            ok == self@.supports_within(*tp, depth as nat),
        decreases depth, *tp,
    {
        match tp {
            Type::Void => true,
            Type::Integer(_) => true,
            Type::Unsigned(_) => true,
            Type::Boolean => true,
            Type::Float(f) => match f {
                Float::Quadruple => false,
                _ => true,
            },
            Type::String => false,
            Type::Opaque => false,
            Type::Pointer(inner) => is_printable(inner) && self.supports_within(inner, depth),
            Type::Array(inner, _) => {
                let inner: &Type = inner;
                match inner {
                    Type::Opaque => true,
                    _ => self.supports_within(inner, depth),
                }
            },
            Type::VArray(inner, _) => {
                let inner: &Type = inner;
                match inner {
                    Type::Opaque => true,
                    Type::String => true,
                    _ => is_printable(inner) && self.supports_within(inner, depth),
                }
            },
            Type::Named(named) => match named {
                NamedType::Enum(_) => true,
                NamedType::Typedef(name) => {
                    if depth == 0 {
                        return false;
                    }
                    match typedef_named(&self.typedefs, name.as_str()) {
                        Some(def) => self.supports_within(def, depth - 1),
                        None => false,
                    }
                },
                NamedType::Struct(name) => {
                    if depth == 0 {
                        return false;
                    }
                    match struct_named(&self.structs, name.as_str()) {
                        Some(st) => {
                            let n = struct_len(st);
                            if n == 0 {
                                return false;
                            }
                            let mut i: usize = 0;
                            while i < n
                                invariant
                                    depth > 0,
                                    n == struct_fields(*st).len(),
                                    i <= n,
                                    forall|j: int|
                                        0 <= j < i ==> self@.supports_within(
                                            #[trigger] struct_fields(*st)[j].1,
                                            (depth - 1) as nat,
                                        ),
                                decreases n - i,
                            {
                                match struct_field(st, i) {
                                    Some((_, field)) => {
                                        if !self.supports_within(field, depth - 1) {
                                            assert(!self@.supports_within(
                                                struct_fields(*st)[i as int].1,
                                                (depth - 1) as nat,
                                            ));
                                            return false;
                                        }
                                    },
                                    None => {},
                                }
                                i = i + 1;
                            }
                            true
                        },
                        None => false,
                    }
                },
                NamedType::Union(name) => {
                    if depth == 0 {
                        return false;
                    }
                    match union_named(&self.unions, name.as_str()) {
                        Some(un) => {
                            let n = arms_len(&un.arms);
                            if n == 0 && un.default.is_none() {
                                return false;
                            }
                            let mut i: usize = 0;
                            while i < n
                                invariant
                                    depth > 0,
                                    n == union_arms(un.arms).len(),
                                    i <= n,
                                    forall|j: int|
                                        0 <= j < i ==> self@.supports_within(
                                            #[trigger] union_arms(un.arms)[j].1.1,
                                            (depth - 1) as nat,
                                        ),
                                decreases n - i,
                            {
                                match arms_entry(&un.arms, i) {
                                    Some((_, arm)) => {
                                        if !self.supports_within(&arm.1, depth - 1) {
                                            assert(!self@.supports_within(
                                                union_arms(un.arms)[i as int].1.1,
                                                (depth - 1) as nat,
                                            ));
                                            return false;
                                        }
                                    },
                                    None => {},
                                }
                                i = i + 1;
                            }
                            match &un.default {
                                Some(arm) => self.supports_within(&arm.1, depth - 1),
                                None => true,
                            }
                        },
                        None => false,
                    }
                },
            },
        }
    }

    /// Decides whether wire code can be written for `tp`.
    pub fn supports(&self, tp: &Type) -> (ok: bool)
        ensures
            ok == self@.supports(*tp),
    {
        self.supports_within(tp, self.depth())
    }
}

impl Handle {
    /// Decides whether wire code can be written for the procedure.
    pub fn supports_procedure(&self, procedure: &Procedure) -> (ok: bool)
        ensures
            ok == self@.supports_procedure(*procedure),
    {
        if !self.supports(&procedure.return_type) {
            return false;
        }
        if !procedure.return_type.is_void() && !is_printable(&procedure.return_type) {
            return false;
        }
        let n = procedure.arguments.len();
        let mut i: usize = 0;
        while i < n
            invariant
                n == procedure.arguments@.len(),
                i <= n,
                self@.supports(procedure.return_type),
                procedure.return_type == Type::Void || printable(procedure.return_type),
                forall|j: int|
                    0 <= j < i ==> self@.supports(#[trigger] procedure.arguments@[j]) && printable(
                        procedure.arguments@[j],
                    ),
            decreases n - i,
        {
            if !self.supports(&procedure.arguments[i]) || !is_printable(&procedure.arguments[i]) {
                return false;
            }
            i = i + 1;
        }
        true
    }

    /// Decides whether wire code can be written for the version.
    pub fn supports_version(&self, version: &Version) -> (ok: bool)
        ensures
            ok == self@.supports_version(*version),
    {
        let n = procedures_len(&version.procedures);
        let mut i: usize = 0;
        while i < n
            invariant
                n == version_procedures(version.procedures).len(),
                i <= n,
                forall|j: int|
                    0 <= j < i ==> self@.supports_procedure(
                        (#[trigger] version_procedures(version.procedures)[j]).1,
                    ),
            decreases n - i,
        {
            match procedures_entry(&version.procedures, i) {
                Some((_, procedure)) => {
                    if !self.supports_procedure(procedure) {
                        assert(!self@.supports_procedure(
                            version_procedures(version.procedures)[i as int].1,
                        ));
                        return false;
                    }
                },
                None => {},
            }
            i = i + 1;
        }
        true
    }

    /// Decides whether wire code can be written for the program.
    pub fn supports_program(&self, program: &Program) -> (ok: bool)
        ensures
            ok == self@.supports_program(*program),
    {
        let n = versions_len(&program.versions);
        let mut i: usize = 0;
        while i < n
            invariant
                n == program_versions(program.versions).len(),
                i <= n,
                forall|j: int|
                    0 <= j < i ==> self@.supports_version(
                        (#[trigger] program_versions(program.versions)[j]).1,
                    ),
            decreases n - i,
        {
            match versions_entry(&program.versions, i) {
                Some((_, version)) => {
                    if !self.supports_version(version) {
                        assert(!self@.supports_version(program_versions(program.versions)[i as int].1));
                        return false;
                    }
                },
                None => {},
            }
            i = i + 1;
        }
        true
    }
}

fn struct_printable(st: &Struct) -> (ok: bool)
    ensures
        ok == fields_printable(struct_fields(*st)),
{
    let n = struct_len(st);
    let mut i: usize = 0;
    while i < n
        invariant
            n == struct_fields(*st).len(),
            i <= n,
            forall|j: int| 0 <= j < i ==> printable((#[trigger] struct_fields(*st)[j]).1),
        decreases n - i,
    {
        match struct_field(st, i) {
            Some((_, tp)) => {
                if !is_printable(tp) {
                    assert(!printable(struct_fields(*st)[i as int].1));
                    return false;
                }
            },
            None => {},
        }
        i = i + 1;
    }
    true
}

fn arms_printable(un: &Union) -> (ok: bool)
    ensures
        ok == union_printable(*un),
{
    let n = arms_len(&un.arms);
    let mut i: usize = 0;
    while i < n
        invariant
            n == union_arms(un.arms).len(),
            i <= n,
            forall|j: int| 0 <= j < i ==> arm_printable((#[trigger] union_arms(un.arms)[j]).1.1),
        decreases n - i,
    {
        match arms_entry(&un.arms, i) {
            Some((_, arm)) => {
                if !arm.1.is_void() && !is_printable(&arm.1) {
                    assert(!arm_printable(union_arms(un.arms)[i as int].1.1));
                    return false;
                }
            },
            None => {},
        }
        i = i + 1;
    }
    match &un.default {
        Some(arm) => arm.1.is_void() || is_printable(&arm.1),
        None => true,
    }
}

impl Handle {
    /// Decides whether every declared type can be written in C.
    pub fn declarable(&self) -> (ok: bool)
        ensures
            ok == self@.declarable(),
    {
        let typedefs = struct_len(&self.typedefs);
        let mut i: usize = 0;
        while i < typedefs
            invariant
                typedefs == self@.typedefs.len(),
                i <= typedefs,
                forall|j: int| 0 <= j < i ==> printable((#[trigger] self@.typedefs[j]).1),
            decreases typedefs - i,
        {
            match struct_field(&self.typedefs, i) {
                Some((_, tp)) => {
                    if !is_printable(tp) {
                        assert(!printable(self@.typedefs[i as int].1));
                        return false;
                    }
                },
                None => {},
            }
            i = i + 1;
        }
        let structs = structs_len(&self.structs);
        let mut i: usize = 0;
        while i < structs
            invariant
                structs == self@.structs.len(),
                i <= structs,
                forall|j: int| 0 <= j < self@.typedefs.len() ==> printable((#[trigger] self@.typedefs[j]).1),
                forall|j: int|
                    0 <= j < i ==> fields_printable(struct_fields((#[trigger] self@.structs[j]).1)),
            decreases structs - i,
        {
            match structs_entry(&self.structs, i) {
                Some((_, st)) => {
                    if !struct_printable(st) {
                        assert(!fields_printable(struct_fields(self@.structs[i as int].1)));
                        return false;
                    }
                },
                None => {},
            }
            i = i + 1;
        }
        let unions = unions_len(&self.unions);
        let mut i: usize = 0;
        while i < unions
            invariant
                unions == self@.unions.len(),
                i <= unions,
                forall|j: int| 0 <= j < self@.typedefs.len() ==> printable((#[trigger] self@.typedefs[j]).1),
                forall|j: int|
                    0 <= j < self@.structs.len() ==> fields_printable(
                        struct_fields((#[trigger] self@.structs[j]).1),
                    ),
                forall|j: int| 0 <= j < i ==> union_printable((#[trigger] self@.unions[j]).1),
            decreases unions - i,
        {
            match unions_entry(&self.unions, i) {
                Some((_, un)) => {
                    if !arms_printable(un) {
                        assert(!union_printable(self@.unions[i as int].1));
                        return false;
                    }
                },
                None => {},
            }
            i = i + 1;
        }
        true
    }
}

} // verus!
