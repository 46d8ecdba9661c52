//! What holds of every run of the parser.

use vstd::prelude::*;
use crate::rpc::token::{Token, TokenView};
use crate::rpc::{NamedType, Type, Value, ValueView};
use crate::rpc::{ProcedureView, VersionView};
use crate::rpc::DefinitionView;
use crate::rpc::token::Bracket;
use crate::rpc_parser::{definition, definitions_from, enum_body, enum_items};
use crate::rpc_parser::{Complaint, array_type, base_type, full_type, named, number_of, value};
use crate::rpc_parser::{
    Arms, Fault, Scope, Taken, UnionItemView, const_definition, declaration, enum_definition,
    enum_item, marked, module, procedure, program_definition, versions_from,
    struct_definition, struct_fields_from, type_identifier, typedef_definition, uncommented,
    union_arms_from, union_definition, union_item, version, procedures_from,
};

verus! {

/// The tokens before a place are the same with a token put in there.
proof fn uncommented_before(tokens: Seq<Token>, at: int, comment: Token, n: nat)
    requires
        0 <= at <= tokens.len(),
        n <= at,
    ensures
        uncommented(tokens.insert(at, comment), n) == uncommented(tokens, n),
    decreases n,
{
    if n > 0 {
        uncommented_before(tokens, at, comment, (n - 1) as nat);
    }
}

/// A comment put in between leaves the tokens without comments as they
/// were.
proof fn uncommented_behind(tokens: Seq<Token>, at: int, comment: Token, n: nat)
    requires
        0 <= at <= tokens.len(),
        comment is Comment,
        at <= n <= tokens.len(),
    ensures
        uncommented(tokens.insert(at, comment), n + 1) == uncommented(tokens, n),
    decreases n,
{
    if n == at {
        uncommented_before(tokens, at, comment, n);
    } else {
        uncommented_behind(tokens, at, comment, (n - 1) as nat);
    }
}

/// A comment put in anywhere among the tokens changes nothing of what the
/// parser gives.
pub proof fn comment_transparency(tokens: Seq<Token>, at: int, comment: Token)
    requires
        0 <= at <= tokens.len(),
        comment is Comment,
    ensures
        module(tokens.insert(at, comment)) == module(tokens),
{
    uncommented_behind(tokens, at, comment, tokens.len());
}

/// The same tokens give the same module, or the same error.
pub proof fn parser_determinism(first: Seq<Token>, second: Seq<Token>)
    requires
        first == second,
    ensures
        module(first) == module(second),
{
}

/// The name of a constant that is defined is new to the module, and is
/// taken from then on: no later constant, enum tag, typedef or program can
/// have it.
pub proof fn const_name_unique(rest: Seq<Token>, scope: Scope)
    requires
        const_definition(rest, scope) is Ok,
    ensures
        !scope.namespace.contains(const_definition(rest, scope)->Ok_0.value.0@),
        const_definition(rest, scope)->Ok_0.scope.namespace.contains(
            const_definition(rest, scope)->Ok_0.value.0@,
        ),
{
}

/// A constant whose name is taken is refused as redefined.
pub proof fn const_redefined(rest: Seq<Token>, scope: Scope, name: String)
    requires
        rest.len() > 0,
        rest[0] == Token::Identifier(name),
        scope.namespace.contains(name@),
    ensures
        const_definition(rest, scope) matches Err(Fault::IdentifierRedefined(_)),
{
}

/// The tag of an enum that is read is new to the module, and is taken
/// from then on.
pub proof fn enum_tag_unique(rest: Seq<Token>, scope: Scope)
    requires
        enum_item(rest, scope) is Ok,
    ensures
        !scope.namespace.contains(enum_item(rest, scope)->Ok_0.value.0@),
        enum_item(rest, scope)->Ok_0.scope.namespace.contains(enum_item(rest, scope)->Ok_0.value.0@),
{
}

/// An enum tag whose name is taken is refused as redefined.
pub proof fn enum_tag_redefined(rest: Seq<Token>, scope: Scope, name: String)
    requires
        rest.len() > 0,
        rest[0] == Token::Identifier(name),
        scope.namespace.contains(name@),
    ensures
        enum_item(rest, scope) matches Err(Fault::IdentifierRedefined(_)),
{
}

/// The name of a typedef that is defined is new to the module and among
/// the types, and is taken from then on.
pub proof fn typedef_name_unique(rest: Seq<Token>, scope: Scope)
    requires
        typedef_definition(rest, scope) is Ok,
    ensures
        !scope.namespace.contains(typedef_definition(rest, scope)->Ok_0.value.0@),
        !scope.type_taken(typedef_definition(rest, scope)->Ok_0.value.0@),
        typedef_definition(rest, scope)->Ok_0.scope.type_taken(
            typedef_definition(rest, scope)->Ok_0.value.0@,
        ),
        typedef_definition(rest, scope)->Ok_0.scope.namespace.contains(
            typedef_definition(rest, scope)->Ok_0.value.0@,
        ),
{
}

/// A typedef whose name is taken in the module, or by a type of whichever
/// kind, is refused as redefined.
pub proof fn typedef_redefined(rest: Seq<Token>, scope: Scope)
    requires
        declaration(rest, scope) is Ok,
        scope.namespace.contains(declaration(rest, scope)->Ok_0.value.0@) || scope.type_taken(
            declaration(rest, scope)->Ok_0.value.0@,
        ),
    ensures
        typedef_definition(rest, scope) matches Err(Fault::TypeRedefined(_)),
{
}

/// The name of an enum that is defined is new among the types, and is
/// taken from then on.
pub proof fn enum_name_unique(rest: Seq<Token>, scope: Scope)
    requires
        enum_definition(rest, scope) is Ok,
    ensures
        !scope.type_taken(enum_definition(rest, scope)->Ok_0.value.0@),
        enum_definition(rest, scope)->Ok_0.scope.enums.contains(
            enum_definition(rest, scope)->Ok_0.value.0@,
        ),
{
}

/// An enum whose name a type has, of whichever kind, is refused as
/// redefined.
pub proof fn enum_redefined(rest: Seq<Token>, scope: Scope, name: String)
    requires
        rest.len() > 0,
        rest[0] == Token::Identifier(name),
        scope.type_taken(name@),
    ensures
        enum_definition(rest, scope) matches Err(Fault::TypeRedefined(_)),
{
}

/// The name of a structure that is defined is new among the types, and
/// is taken from then on; the structure is pending no more.
pub proof fn struct_name_unique(rest: Seq<Token>, scope: Scope)
    requires
        struct_definition(rest, scope) is Ok,
    ensures
        !scope.type_taken(struct_definition(rest, scope)->Ok_0.value.0@),
        struct_definition(rest, scope)->Ok_0.scope.structs.contains(
            struct_definition(rest, scope)->Ok_0.value.0@,
        ),
        struct_definition(rest, scope)->Ok_0.scope.pending_struct is None,
{
}

/// A structure whose name a type has, of whichever kind, is refused as
/// redefined.
pub proof fn struct_redefined(rest: Seq<Token>, scope: Scope, name: String)
    requires
        rest.len() > 0,
        rest[0] == Token::Identifier(name),
        scope.type_taken(name@),
    ensures
        struct_definition(rest, scope) matches Err(Fault::TypeRedefined(_)),
{
}

/// The name of a union that is defined is new among the types, and is
/// taken from then on; the union is pending no more.
pub proof fn union_name_unique(rest: Seq<Token>, scope: Scope)
    requires
        union_definition(rest, scope) is Ok,
    ensures
        !scope.type_taken(union_definition(rest, scope)->Ok_0.value.0@),
        union_definition(rest, scope)->Ok_0.scope.unions.contains(
            union_definition(rest, scope)->Ok_0.value.0@,
        ),
        union_definition(rest, scope)->Ok_0.scope.pending_union is None,
{
}

/// A union whose name a type has, of whichever kind, is refused as
/// redefined.
pub proof fn union_redefined(rest: Seq<Token>, scope: Scope, name: String)
    requires
        rest.len() > 0,
        rest[0] == Token::Identifier(name),
        scope.type_taken(name@),
    ensures
        union_definition(rest, scope) matches Err(Fault::TypeRedefined(_)),
{
}

/// The name and the number of a program that is defined are new to the
/// module, and are taken from then on.
pub proof fn program_unique(rest: Seq<Token>, scope: Scope)
    requires
        program_definition(rest, scope) is Ok,
    ensures
        !scope.namespace.contains(program_definition(rest, scope)->Ok_0.value.1.name),
        !scope.numbers.contains(program_definition(rest, scope)->Ok_0.value.0@),
        program_definition(rest, scope)->Ok_0.scope.namespace.contains(
            program_definition(rest, scope)->Ok_0.value.1.name,
        ),
        program_definition(rest, scope)->Ok_0.scope.numbers.contains(
            program_definition(rest, scope)->Ok_0.value.0@,
        ),
{
}

/// A program whose name is taken is refused as redefined.
pub proof fn program_redefined(rest: Seq<Token>, scope: Scope, name: String)
    requires
        rest.len() > 0,
        rest[0] == Token::Identifier(name),
        scope.namespace.contains(name@),
    ensures
        program_definition(rest, scope) matches Err(Fault::IdentifierRedefined(_)),
{
}

/// An arm under a value that an earlier arm of the union has is refused
/// as redefined.
pub proof fn union_arm_redefined(
    rest: Seq<Token>,
    scope: Scope,
    arms: Seq<(Value, (Seq<char>, Type))>,
    default: Option<(Seq<char>, Type)>,
    value: Value,
    arm: (Seq<char>, Type),
)
    requires
        union_item(rest, scope) is Ok,
        union_item(rest, scope)->Ok_0.value == UnionItemView::Regular(value, arm),
        crate::rpc::has_value(arms, value@),
    ensures
        union_arms_from(rest, scope, arms, default) == Err::<Taken<Arms>, Fault>(
            Fault::UnionArmRedefined(Some(value@)),
        ),
{
}

/// A default arm behind an earlier default arm of the union is refused as
/// redefined.
pub proof fn union_default_redefined(
    rest: Seq<Token>,
    scope: Scope,
    arms: Seq<(Value, (Seq<char>, Type))>,
    default: (Seq<char>, Type),
    name: Seq<char>,
    tp: Type,
)
    requires
        union_item(rest, scope) is Ok,
        union_item(rest, scope)->Ok_0.value == UnionItemView::Default(name, tp),
    ensures
        union_arms_from(rest, scope, arms, Some(default)) == Err::<Taken<Arms>, Fault>(
            Fault::UnionArmRedefined(None),
        ),
{
}

/// Whether no two entries are filed under the same value.
pub open spec fn distinct_values<T>(entries: Seq<(Value, T)>) -> bool {
    forall|i: int, j: int|
        0 <= i < j < entries.len() ==> (#[trigger] entries[i]).0@ != (#[trigger] entries[j]).0@
}

/// Whether no two fields have the same name.
pub open spec fn distinct_names<T>(entries: Seq<(String, T)>) -> bool {
    forall|i: int, j: int|
        0 <= i < j < entries.len() ==> (#[trigger] entries[i]).0@ != (#[trigger] entries[j]).0@
}

/// The arms of a union that is read stand under values of which no two
/// are the same.
pub proof fn union_arms_distinct(
    rest: Seq<Token>,
    scope: Scope,
    arms: Seq<(Value, (Seq<char>, Type))>,
    default: Option<(Seq<char>, Type)>,
)
    requires
        distinct_values(arms),
        union_arms_from(rest, scope, arms, default) is Ok,
    ensures
        distinct_values(union_arms_from(rest, scope, arms, default)->Ok_0.value.arms),
    decreases rest.len(),
{
    let item = union_item(rest, scope)->Ok_0;
    let more = match item.value {
        UnionItemView::Regular(v, decl) => Arms { arms: arms.push((v, decl)), default },
        UnionItemView::Default(name, tp) => Arms { arms, default: Some((name, tp)) },
    };
    assert(distinct_values(more.arms)) by {
        assert forall|i: int, j: int| 0 <= i < j < more.arms.len() implies (#[trigger] more.arms[i]).0@ != (
        #[trigger] more.arms[j]).0@ by {
            match item.value {
                UnionItemView::Regular(v, decl) => {
                    if j == arms.len() {
                        assert(arms[i].0@ != v@);
                    }
                },
                UnionItemView::Default(_, _) => {},
            }
        }
    }
    let behind = crate::rpc_parser::expected(
        item.rest,
        TokenView::Separator(crate::rpc::token::Separator::Semicolon),
        "Union arm declaraion wasn't finished"@,
        "Union arm declaraion wasn't finished"@,
        crate::rpc_parser::Complaint::Unexpected,
    )->Ok_0;
    if !(behind.len() == 0 || crate::rpc_parser::closing(behind) || behind.len() >= rest.len()) {
        union_arms_distinct(behind, scope, more.arms, more.default);
    }
}

/// The fields of a structure that is read have names of which no two are
/// the same.
pub proof fn struct_fields_distinct(rest: Seq<Token>, scope: Scope, fields: Seq<(String, Type)>)
    requires
        distinct_names(fields),
        struct_fields_from(rest, scope, fields) is Ok,
    ensures
        distinct_names(struct_fields_from(rest, scope, fields)->Ok_0.value),
    decreases rest.len(),
{
    let decl = declaration(rest, scope)->Ok_0;
    let more = fields.push(decl.value);
    assert(distinct_names(more)) by {
        assert forall|i: int, j: int| 0 <= i < j < more.len() implies (#[trigger] more[i]).0@ != (
        #[trigger] more[j]).0@ by {
            if j == fields.len() {
                assert(fields[i].0@ != decl.value.0@);
            }
        }
    }
    let behind = crate::rpc_parser::expected(
        decl.rest,
        TokenView::Separator(crate::rpc::token::Separator::Semicolon),
        "Structure field declaraion wasn't finished"@,
        "Structure field declaraion wasn't finished"@,
        crate::rpc_parser::Complaint::Unexpected,
    )->Ok_0;
    if !(behind.len() == 0 || crate::rpc_parser::closing(behind) || behind.len() >= rest.len()) {
        struct_fields_distinct(behind, scope, more);
    }
}

/// The structure that is being defined cannot be held: its name without
/// the pointer mark is refused.
pub proof fn pending_struct_held(rest: Seq<Token>, scope: Scope, name: String)
    requires
        rest.len() >= 2,
        rest[0]@ == TokenView::Type(crate::rpc::token::Type::Struct),
        rest[1] == Token::Identifier(name),
        scope.pending_struct == Some(name@),
        !marked(rest.skip(2)),
    ensures
        type_identifier(rest, scope) matches Err(Fault::UseOfPendingType(_)),
{
    assert(rest.skip(1)[0] == rest[1]);
    assert(rest.skip(1).skip(1) =~= rest.skip(2));
}

/// The structure that is being defined can be pointed to.
pub proof fn pending_struct_pointed(rest: Seq<Token>, scope: Scope, name: String)
    requires
        rest.len() >= 2,
        rest[0]@ == TokenView::Type(crate::rpc::token::Type::Struct),
        rest[1] == Token::Identifier(name),
        scope.pending_struct == Some(name@),
        marked(rest.skip(2)),
    ensures
        type_identifier(rest, scope) == Ok::<Taken<Type>, Fault>(
            Taken {
                value: Type::Pointer(Box::new(Type::Named(NamedType::Struct(name)))),
                rest: rest.skip(3),
            },
        ),
{
    assert(rest.skip(1)[0] == rest[1]);
    assert(rest.skip(1).skip(1) =~= rest.skip(2));
    assert(rest.skip(2).skip(1) =~= rest.skip(3));
}

/// The union that is being defined cannot be held: its name without the
/// pointer mark is refused.
pub proof fn pending_union_held(rest: Seq<Token>, scope: Scope, name: String)
    requires
        rest.len() >= 2,
        rest[0]@ == TokenView::Type(crate::rpc::token::Type::Union),
        rest[1] == Token::Identifier(name),
        scope.pending_union == Some(name@),
        !marked(rest.skip(2)),
    ensures
        type_identifier(rest, scope) matches Err(Fault::UseOfPendingType(_)),
{
    assert(rest.skip(1)[0] == rest[1]);
    assert(rest.skip(1).skip(1) =~= rest.skip(2));
}

/// The union that is being defined can be pointed to.
pub proof fn pending_union_pointed(rest: Seq<Token>, scope: Scope, name: String)
    requires
        rest.len() >= 2,
        rest[0]@ == TokenView::Type(crate::rpc::token::Type::Union),
        rest[1] == Token::Identifier(name),
        scope.pending_union == Some(name@),
        marked(rest.skip(2)),
    ensures
        type_identifier(rest, scope) == Ok::<Taken<Type>, Fault>(
            Taken {
                value: Type::Pointer(Box::new(Type::Named(NamedType::Union(name)))),
                rest: rest.skip(3),
            },
        ),
{
    assert(rest.skip(1)[0] == rest[1]);
    assert(rest.skip(1).skip(1) =~= rest.skip(2));
    assert(rest.skip(2).skip(1) =~= rest.skip(3));
}

/// A procedure under a number that an earlier procedure of the version has
/// is refused as reassigned.
pub proof fn procedure_number_reassigned(
    rest: Seq<Token>,
    scope: Scope,
    items: Seq<(Value, ProcedureView)>,
    names: Set<Seq<char>>,
    numbers: Set<ValueView>,
)
    requires
        procedure(rest, scope) is Ok,
        numbers.contains(procedure(rest, scope)->Ok_0.value.0@),
    ensures
        procedures_from(rest, scope, items, names, numbers) == Err::<Taken<Seq<(Value, ProcedureView)>>, Fault>(
            Fault::ProcedureNumberReassigned(procedure(rest, scope)->Ok_0.value.0@),
        ),
{
}

/// A procedure under a name that an earlier procedure of the version has is
/// refused as redefined.
pub proof fn procedure_name_redefined(
    rest: Seq<Token>,
    scope: Scope,
    items: Seq<(Value, ProcedureView)>,
    names: Set<Seq<char>>,
    numbers: Set<ValueView>,
)
    requires
        procedure(rest, scope) is Ok,
        !numbers.contains(procedure(rest, scope)->Ok_0.value.0@),
        names.contains(procedure(rest, scope)->Ok_0.value.1.name),
    ensures
        procedures_from(rest, scope, items, names, numbers) matches Err(Fault::IdentifierRedefined(_)),
{
}

/// The procedures of a version that is read stand under numbers of which
/// no two are the same, where the numbers taken so far are those of the
/// procedures read so far.
pub proof fn procedure_numbers_distinct(
    rest: Seq<Token>,
    scope: Scope,
    items: Seq<(Value, ProcedureView)>,
    names: Set<Seq<char>>,
    numbers: Set<ValueView>,
)
    requires
        distinct_values(items),
        forall|v: ValueView| numbers.contains(v) <==> crate::rpc::has_value(items, v),
        procedures_from(rest, scope, items, names, numbers) is Ok,
    ensures
        distinct_values(procedures_from(rest, scope, items, names, numbers)->Ok_0.value),
    decreases rest.len(),
{
    let item = procedure(rest, scope)->Ok_0;
    let more = items.push(item.value);
    assert(distinct_values(more)) by {
        assert forall|i: int, j: int| 0 <= i < j < more.len() implies (#[trigger] more[i]).0@ != (
        #[trigger] more[j]).0@ by {
            if j == items.len() {
                if items[i].0@ == item.value.0@ {
                    assert(crate::rpc::has_value(items, item.value.0@));
                }
            }
        }
    }
    if !(item.rest.len() == 0 || crate::rpc_parser::closing(item.rest) || item.rest.len() >= rest.len()) {
        let taken = numbers.insert(item.value.0@);
        assert forall|v: ValueView| taken.contains(v) <==> crate::rpc::has_value(more, v) by {
            if crate::rpc::has_value(more, v) {
                let i = choose|i: int| 0 <= i < more.len() && (#[trigger] more[i]).0@ == v;
                if i < items.len() {
                    assert(items[i].0@ == v);
                }
            }
            if crate::rpc::has_value(items, v) {
                let i = choose|i: int| 0 <= i < items.len() && (#[trigger] items[i]).0@ == v;
                assert(more[i].0@ == v);
            }
            if v == item.value.0@ {
                assert(more[items.len() as int].0@ == v);
            }
        }
        procedure_numbers_distinct(item.rest, scope, more, names.insert(item.value.1.name), taken);
    }
}

/// A version under a number that an earlier version of the program has
/// is refused as reassigned.
pub proof fn version_number_reassigned(
    rest: Seq<Token>,
    scope: Scope,
    items: Seq<(Value, VersionView)>,
    names: Set<Seq<char>>,
    numbers: Set<ValueView>,
)
    requires
        version(rest, scope) is Ok,
        numbers.contains(version(rest, scope)->Ok_0.value.0@),
    ensures
        versions_from(rest, scope, items, names, numbers) == Err::<Taken<Seq<(Value, VersionView)>>, Fault>(
            Fault::VersionNumberReassigned(version(rest, scope)->Ok_0.value.0@),
        ),
{
}

/// A version under a name that an earlier version of the program has is
/// refused as redefined.
pub proof fn version_name_redefined(
    rest: Seq<Token>,
    scope: Scope,
    items: Seq<(Value, VersionView)>,
    names: Set<Seq<char>>,
    numbers: Set<ValueView>,
)
    requires
        version(rest, scope) is Ok,
        !numbers.contains(version(rest, scope)->Ok_0.value.0@),
        names.contains(version(rest, scope)->Ok_0.value.1.name),
    ensures
        versions_from(rest, scope, items, names, numbers) matches Err(Fault::IdentifierRedefined(_)),
{
}

/// The versions of a program that is read stand under numbers of which
/// no two are the same, where the numbers taken so far are those of the
/// versions read so far.
pub proof fn version_numbers_distinct(
    rest: Seq<Token>,
    scope: Scope,
    items: Seq<(Value, VersionView)>,
    names: Set<Seq<char>>,
    numbers: Set<ValueView>,
)
    requires
        distinct_values(items),
        forall|v: ValueView| numbers.contains(v) <==> crate::rpc::has_value(items, v),
        versions_from(rest, scope, items, names, numbers) is Ok,
    ensures
        distinct_values(versions_from(rest, scope, items, names, numbers)->Ok_0.value),
    decreases rest.len(),
{
    let item = version(rest, scope)->Ok_0;
    let more = items.push(item.value);
    assert(distinct_values(more)) by {
        assert forall|i: int, j: int| 0 <= i < j < more.len() implies (#[trigger] more[i]).0@ != (
        #[trigger] more[j]).0@ by {
            if j == items.len() {
                if items[i].0@ == item.value.0@ {
                    assert(crate::rpc::has_value(items, item.value.0@));
                }
            }
        }
    }
    if !(item.rest.len() == 0 || crate::rpc_parser::closing(item.rest) || item.rest.len() >= rest.len()) {
        let taken = numbers.insert(item.value.0@);
        assert forall|v: ValueView| taken.contains(v) <==> crate::rpc::has_value(more, v) by {
            if crate::rpc::has_value(more, v) {
                let i = choose|i: int| 0 <= i < more.len() && (#[trigger] more[i]).0@ == v;
                if i < items.len() {
                    assert(items[i].0@ == v);
                }
            }
            if crate::rpc::has_value(items, v) {
                let i = choose|i: int| 0 <= i < items.len() && (#[trigger] items[i]).0@ == v;
                assert(more[i].0@ == v);
            }
            if v == item.value.0@ {
                assert(more[items.len() as int].0@ == v);
            }
        }
        version_numbers_distinct(item.rest, scope, more, names.insert(item.value.1.name), taken);
    }
}

/// The names that a definition takes in the namespace of the module: the
/// name of a constant, of a typedef or of a program, and the tags of an
/// enum.
pub open spec fn names_of(def: DefinitionView) -> Set<Seq<char>> {
    match def {
        DefinitionView::Const(name, _) => Set::empty().insert(name),
        DefinitionView::Typedef(name, _) => Set::empty().insert(name),
        DefinitionView::Program(_, program) => Set::empty().insert(program.name),
        DefinitionView::Enum(_, tags) => Set::new(
            |name: Seq<char>| exists|i: int| 0 <= i < tags.len() && (#[trigger] tags[i]).0 == name,
        ),
        _ => Set::empty(),
    }
}

/// Whether no two tags of an enum have the same name.
pub open spec fn distinct_tags(tags: Seq<(String, Option<Value>)>) -> bool {
    forall|i: int, j: int| 0 <= i < j < tags.len() ==> (#[trigger] tags[i]).0@ != (#[trigger] tags[j]).0@
}

/// Whether a scope has grown out of another: what was taken stays taken.
pub open spec fn grown(before: Scope, after: Scope) -> bool {
    &&& before.namespace.subset_of(after.namespace)
    &&& before.numbers.subset_of(after.numbers)
    &&& before.typedefs.subset_of(after.typedefs)
    &&& before.enums.subset_of(after.enums)
    &&& before.structs.subset_of(after.structs)
    &&& before.unions.subset_of(after.unions)
}

/// Whether every size in a type stands for a positive number.
pub open spec fn sizes_positive(scope: Scope, tp: Type) -> bool
    decreases tp,
{
    match tp {
        Type::Pointer(inner) => sizes_positive(scope, *inner),
        Type::Array(inner, size) => number_of(scope, size) > 0 && sizes_positive(scope, *inner),
        Type::VArray(inner, size) => sizes_positive(scope, *inner) && match size {
            Some(size) => number_of(scope, size) > 0,
            None => true,
        },
        _ => true,
    }
}

/// A size that stands for a number that is not positive is refused with
/// that number, whether it is written as a number or as a name.
pub proof fn size_not_positive(rest: Seq<Token>, scope: Scope)
    requires
        value(rest, scope, false) is Ok,
        number_of(scope, value(rest, scope, false)->Ok_0.value) <= 0,
    ensures
        value(rest, scope, true) == Err::<Taken<Value>, Fault>(
            Fault::NonPositiveArraySize(number_of(scope, value(rest, scope, false)->Ok_0.value)),
        ),
{
}

/// A size that is read stands for a positive number, and is the value
/// that is read where no size is asked for.
pub proof fn size_positive(rest: Seq<Token>, scope: Scope)
    requires
        value(rest, scope, true) is Ok,
    ensures
        value(rest, scope, true) == value(rest, scope, false),
        number_of(scope, value(rest, scope, true)->Ok_0.value) > 0,
{
}

/// A type that is read by its name holds no size.
pub proof fn named_type_sizes_positive(rest: Seq<Token>, scope: Scope)
    requires
        type_identifier(rest, scope) is Ok,
    ensures
        sizes_positive(scope, type_identifier(rest, scope)->Ok_0.value),
{
    let base = base_type(rest, scope)->Ok_0;
    assert(sizes_positive(scope, base.value));
}

/// The bound of an array that is read stands for a positive number.
pub proof fn bound_positive(rest: Seq<Token>, scope: Scope, tp: Type)
    requires
        array_type(rest, scope, tp) is Ok,
        sizes_positive(scope, tp),
    ensures
        sizes_positive(scope, array_type(rest, scope, tp)->Ok_0.value),
{
    if rest.len() > 0 && rest[0]@ == TokenView::Bracket(Bracket::LeftTriangle) {
        let behind = rest.skip(1);
        if behind[0]@ != TokenView::Bracket(Bracket::RightTriangle) {
            size_positive(behind, scope);
        }
    } else if rest.len() > 0 && rest[0]@ == TokenView::Bracket(Bracket::LeftSquare) {
        size_positive(rest.skip(1), scope);
    }
}

/// The type of a declaration that is read holds positive sizes only.
pub proof fn declared_sizes_positive(rest: Seq<Token>, scope: Scope)
    requires
        declaration(rest, scope) is Ok,
    ensures
        sizes_positive(scope, declaration(rest, scope)->Ok_0.value.1),
{
    let tp = type_identifier(rest, scope)->Ok_0;
    named_type_sizes_positive(rest, scope);
    let name = named(
        tp.rest,
        "Expected declaration identifier"@,
        "Expected declaration identifier"@,
        Complaint::Unexpected,
    )->Ok_0;
    bound_positive(name.rest, scope, tp.value);
}

/// A type that is read with its bound holds positive sizes only.
pub proof fn type_sizes_positive(rest: Seq<Token>, scope: Scope)
    requires
        full_type(rest, scope) is Ok,
    ensures
        sizes_positive(scope, full_type(rest, scope)->Ok_0.value),
{
    let tp = type_identifier(rest, scope)->Ok_0;
    named_type_sizes_positive(rest, scope);
    bound_positive(tp.rest, scope, tp.value);
}

/// The tags of an enum that is read are taken in the namespace, no two
/// are the same, and those that are added were free before.
pub proof fn enum_tags_taken(rest: Seq<Token>, scope: Scope, items: Seq<(String, Option<Value>)>)
    requires
        distinct_tags(items),
        forall|i: int| 0 <= i < items.len() ==> scope.namespace.contains((#[trigger] items[i]).0@),
        enum_items(rest, scope, items) is Ok,
    ensures
        ({
            let out = enum_items(rest, scope, items)->Ok_0;
            &&& distinct_tags(out.value)
            &&& out.value.len() >= items.len()
            &&& forall|i: int| 0 <= i < items.len() ==> out.value[i] == items[i]
            &&& forall|i: int|
                0 <= i < out.value.len() ==> out.scope.namespace.contains((#[trigger] out.value[i]).0@)
            &&& forall|i: int|
                items.len() <= i < out.value.len() ==> !scope.namespace.contains(
                    (#[trigger] out.value[i]).0@,
                )
            &&& grown(scope, out.scope)
            &&& out.scope.pending_struct == scope.pending_struct
            &&& out.scope.pending_union == scope.pending_union
        }),
    decreases rest.len(),
{
    let item = enum_item(rest, scope)->Ok_0;
    let more = items.push(item.value);
    assert(distinct_tags(more)) by {
        assert forall|i: int, j: int| 0 <= i < j < more.len() implies (#[trigger] more[i]).0@ != (
        #[trigger] more[j]).0@ by {
            if j == items.len() {
                assert(scope.namespace.contains(items[i].0@));
            }
        }
    }
    assert forall|i: int| 0 <= i < more.len() implies item.scope.namespace.contains(
        (#[trigger] more[i]).0@,
    ) by {
        if i < items.len() {
            assert(scope.namespace.contains(items[i].0@));
        }
    }
    if crate::rpc_parser::separated(item.rest, crate::rpc::token::Separator::Comma)
        && !crate::rpc_parser::closing(item.rest.skip(1)) && item.rest.skip(1).len() < rest.len() {
        enum_tags_taken(item.rest.skip(1), item.scope, more);
        let out = enum_items(item.rest.skip(1), item.scope, more)->Ok_0;
        assert forall|i: int| items.len() <= i < out.value.len() implies !scope.namespace.contains(
            (#[trigger] out.value[i]).0@,
        ) by {
            if i == items.len() {
                assert(out.value[i] == more[i]);
            } else {
                assert(!item.scope.namespace.contains(out.value[i].0@));
            }
        }
        assert forall|i: int| 0 <= i < items.len() implies out.value[i] == items[i] by {
            assert(out.value[i] == more[i]);
        }
    }
}

/// The name of the type that a definition declares, if it declares one.
pub open spec fn type_name_of(def: DefinitionView) -> Option<Seq<char>> {
    match def {
        DefinitionView::Typedef(name, _) => Some(name),
        DefinitionView::Enum(name, _) => Some(name),
        DefinitionView::Struct(name, _) => Some(name),
        DefinitionView::Union(name, _) => Some(name),
        _ => None,
    }
}

/// What one definition does to the scope: the scope grows; the names
/// that the definition takes in the namespace were free and are taken;
/// the number of a program was free and is taken; and the name of a type
/// was free among the types of every kind and is taken.
pub proof fn definition_takes(rest: Seq<Token>, scope: Scope)
    requires
        definition(rest, scope) is Ok,
    ensures
        ({
            let out = definition(rest, scope)->Ok_0;
            &&& grown(scope, out.scope)
            &&& forall|name: Seq<char>| #[trigger]
                names_of(out.value).contains(name) ==> !scope.namespace.contains(name)
                    && out.scope.namespace.contains(name)
            &&& out.value matches DefinitionView::Program(number, _) ==> !scope.numbers.contains(number@)
                && out.scope.numbers.contains(number@)
            &&& type_name_of(out.value) matches Some(name) ==> !scope.type_taken(name)
                && out.scope.type_taken(name)
        }),
{
    let behind = rest.skip(1);
    match rest[0] {
        Token::Type(crate::rpc::token::Type::Enum) => {
            let name = crate::rpc_parser::named(
                behind,
                "No enum identifier was provided"@,
                "Expected enum identifier"@,
                crate::rpc_parser::Complaint::Unexpected,
            )->Ok_0;
            let open = crate::rpc_parser::expected(
                name.rest,
                TokenView::Bracket(crate::rpc::token::Bracket::LeftCurly),
                "No enum body"@,
                "Expected enum body \"{\""@,
                crate::rpc_parser::Complaint::Unexpected,
            )->Ok_0;
            enum_tags_taken(open, Scope { last_tag: None, ..scope }, Seq::empty());
            let body = enum_body(open, scope)->Ok_0;
            let out = definition(rest, scope)->Ok_0;
            assert forall|tag: Seq<char>| #[trigger]
                names_of(out.value).contains(tag) implies !scope.namespace.contains(tag)
                && out.scope.namespace.contains(tag) by {
                let tags = crate::rpc::tags_view(body.value);
                let i = choose|i: int| 0 <= i < tags.len() && (#[trigger] tags[i]).0 == tag;
                assert(body.value[i].0@ == tag);
            }
        },
        _ => {},
    }
}

/// Whether the definitions take names and numbers that are theirs alone:
/// no name of the namespace is taken by two definitions, no two programs
/// have the same number, and no two types, of whichever kinds, have the
/// same name.
pub open spec fn unique(defs: Seq<DefinitionView>) -> bool {
    forall|i: int, j: int|
        0 <= i < j < defs.len() ==> apart(#[trigger] defs[i], #[trigger] defs[j])
}

/// Whether two definitions take names and numbers that are theirs alone.
pub open spec fn apart(first: DefinitionView, second: DefinitionView) -> bool {
    &&& names_of(first).disjoint(names_of(second))
    &&& match (first, second) {
        (DefinitionView::Program(a, _), DefinitionView::Program(b, _)) => a@ != b@,
        _ => true,
    }
    &&& match (type_name_of(first), type_name_of(second)) {
        (Some(a), Some(b)) => a != b,
        _ => true,
    }
}

/// Whether the scope holds what the definitions have taken.
pub open spec fn recorded(scope: Scope, defs: Seq<DefinitionView>) -> bool {
    forall|i: int|
        0 <= i < defs.len() ==> names_of(#[trigger] defs[i]).subset_of(scope.namespace) && match defs[i] {
            DefinitionView::Program(number, _) => scope.numbers.contains(number@),
            _ => true,
        } && match type_name_of(defs[i]) {
            Some(name) => scope.type_taken(name),
            None => true,
        }
}

/// Definitions that are read behind unique ones, in a scope that holds
/// what those have taken, are unique together with them.
pub proof fn definitions_unique(rest: Seq<Token>, scope: Scope, defs: Seq<DefinitionView>)
    requires
        unique(defs),
        recorded(scope, defs),
        definitions_from(rest, scope, defs) is Ok,
    ensures
        unique(definitions_from(rest, scope, defs)->Ok_0),
    decreases rest.len(),
{
    if rest.len() > 0 {
        let def = definition(rest, scope)->Ok_0;
        definition_takes(rest, scope);
        let more = defs.push(def.value);
        assert(unique(more)) by {
            assert forall|i: int, j: int| 0 <= i < j < more.len() implies apart(
                #[trigger] more[i],
                #[trigger] more[j],
            ) by {
                if j == defs.len() {
                    assert(more[i] == defs[i]);
                    assert(names_of(defs[i]).subset_of(scope.namespace));
                    assert forall|name: Seq<char>|
                        !(names_of(defs[i]).contains(name) && names_of(def.value).contains(name)) by {
                        if names_of(def.value).contains(name) {
                            assert(!scope.namespace.contains(name));
                        }
                    }
                } else {
                    assert(more[i] == defs[i] && more[j] == defs[j]);
                }
            }
        }
        assert(recorded(def.scope, more)) by {
            assert forall|i: int| 0 <= i < more.len() implies names_of(#[trigger] more[i]).subset_of(
                def.scope.namespace,
            ) && match more[i] {
                DefinitionView::Program(number, _) => def.scope.numbers.contains(number@),
                _ => true,
            } && match type_name_of(more[i]) {
                Some(name) => def.scope.type_taken(name),
                None => true,
            } by {
                if i < defs.len() {
                    assert(more[i] == defs[i]);
                    assert(names_of(defs[i]).subset_of(scope.namespace));
                }
            }
        }
        if def.rest.len() < rest.len() {
            definitions_unique(def.rest, def.scope, more);
        }
    }
}

/// The definitions of a module that the parser accepts take names and
/// numbers that are theirs alone.
pub proof fn module_unique(tokens: Seq<Token>)
    requires
        module(tokens) is Ok,
    ensures
        unique(module(tokens)->Ok_0),
{
    definitions_unique(uncommented(tokens, tokens.len()), Scope::empty(), Seq::empty());
}

} // verus!
