//! The walk over types that writes wire code: sizes, encoders, decoders
//! and release routines.

use vstd::prelude::*;
use crate::rpc::{
    Float, Integer, NamedType, Procedure, Struct, SwitchingType, Type, Union, Value,
    struct_fields, struct_field, struct_len, union_arms, arms_entry, arms_len,
};
use crate::rpc_generator::handle::{
    Handle, Tables, lookup, struct_named, supported_resolves, typedef_named, union_named,
};
use crate::text::same_text;
use crate::rpc_generator::file::{File, Sink, emit, emit2, emit3, emit4, emit6, emit7, emit8};
use crate::text::{cat2, cat3, cat4, cat5, cat6, decimal, indent, numbered_distinct, spaces, unsigned_text};
use crate::rpc_generator::config::{Config, vla_limit, vla_limit_of};
use crate::rpc::{new_struct, struct_insert};

pub mod asc;
pub mod printables;

verus! {

/// Whether decoding `tp` may allocate, following at most `depth` names in a
/// row: a pointer or a variable-length array does, and so does an array, a
/// typedef, a structure or a union that holds one.
pub open spec fn dynamic_within(tables: Tables, tp: Type, depth: nat) -> bool
    decreases depth, tp,
{
    match tp {
        Type::Pointer(_) => true,
        Type::VArray(_, _) => true,
        Type::Array(inner, _) => dynamic_within(tables, *inner, depth),
        Type::Named(NamedType::Typedef(name)) => depth > 0 && match lookup(tables.typedefs, name@) {
            Some(def) => dynamic_within(tables, def, (depth - 1) as nat),
            None => false,
        },
        Type::Named(NamedType::Struct(name)) => depth > 0 && match lookup(tables.structs, name@) {
            Some(st) => exists|i: int|
                0 <= i < struct_fields(st).len() && dynamic_within(
                    tables,
                    #[trigger] struct_fields(st)[i].1,
                    (depth - 1) as nat,
                ),
            None => false,
        },
        Type::Named(NamedType::Union(name)) => depth > 0 && match lookup(tables.unions, name@) {
            Some(un) => (exists|i: int|
                0 <= i < union_arms(un.arms).len() && dynamic_within(
                    tables,
                    #[trigger] union_arms(un.arms)[i].1.1,
                    (depth - 1) as nat,
                )) || match un.default {
                Some((_, tp)) => dynamic_within(tables, tp, (depth - 1) as nat),
                None => false,
            },
            None => false,
        },
        _ => false,
    }
}

/// Whether decoding `tp` may allocate.
pub open spec fn dynamic(tables: Tables, tp: Type) -> bool {
    dynamic_within(tables, tp, tables.depth())
}

#[verifier::loop_isolation(false)]
fn uses_dynamic_within(handle: &Handle, tp: &Type, Ghost(depth): Ghost<nat>) -> (uses: bool)
    requires
        handle@.resolves_within(*tp, depth),
    ensures
        uses == dynamic_within(handle@, *tp, depth),
    decreases depth, *tp,
{
    match tp {
        Type::Pointer(_) => true,
        Type::VArray(_, _) => true,
        Type::Array(inner, _) => uses_dynamic_within(handle, inner, Ghost(depth)),
        Type::Named(named) => match named {
            NamedType::Typedef(name) => {
                match typedef_named(&handle.typedefs, name.as_str()) {
                    Some(def) => uses_dynamic_within(handle, def, Ghost((depth - 1) as nat)),
                    None => false,
                }
            },
            NamedType::Enum(_) => false,
            NamedType::Struct(name) => {
                match struct_named(&handle.structs, name.as_str()) {
                    Some(st) => {
                        let n = struct_len(st);
                        let mut i: usize = 0;
                        while i < n
                            invariant
                                i <= n,
                                forall|j: int|
                                    0 <= j < i ==> !dynamic_within(
                                        handle@,
                                        #[trigger] struct_fields(*st)[j].1,
                                        (depth - 1) as nat,
                                    ),
                            decreases n - i,
                        {
                            match struct_field(st, i) {
                                Some((_, field)) => {
                                    if uses_dynamic_within(handle, field, Ghost((depth - 1) as nat)) {
                                        assert(dynamic_within(
                                            handle@,
                                            struct_fields(*st)[i as int].1,
                                            (depth - 1) as nat,
                                        ));
                                        return true;
                                    }
                                },
                                None => {},
                            }
                            i = i + 1;
                        }
                        false
                    },
                    None => false,
                }
            },
            NamedType::Union(name) => {
                match union_named(&handle.unions, name.as_str()) {
                    Some(un) => {
                        let n = arms_len(&un.arms);
                        let mut i: usize = 0;
                        while i < n
                            invariant
                                i <= n,
                                forall|j: int|
                                    0 <= j < i ==> !dynamic_within(
                                        handle@,
                                        #[trigger] union_arms(un.arms)[j].1.1,
                                        (depth - 1) as nat,
                                    ),
                            decreases n - i,
                        {
                            match arms_entry(&un.arms, i) {
                                Some((_, arm)) => {
                                    if uses_dynamic_within(handle, &arm.1, Ghost((depth - 1) as nat)) {
                                        assert(dynamic_within(
                                            handle@,
                                            union_arms(un.arms)[i as int].1.1,
                                            (depth - 1) as nat,
                                        ));
                                        return true;
                                    }
                                },
                                None => {},
                            }
                            i = i + 1;
                        }
                        match &un.default {
                            Some(arm) => uses_dynamic_within(handle, &arm.1, Ghost((depth - 1) as nat)),
                            None => false,
                        }
                    },
                    None => false,
                }
            },
        },
        _ => false,
    }
}

pub fn uses_dynamic_memory(handle: &Handle, tp: &Type) -> (uses: bool)
    requires
        handle@.resolves(*tp),
    ensures
        uses == dynamic(handle@, *tp),
{
    uses_dynamic_within(handle, tp, Ghost(handle@.depth()))
}

/// A sum of sizes with one more term.
pub open spec fn summed(sum: Option<Seq<char>>, term: Seq<char>) -> Seq<char> {
    match sum {
        Some(sum) => sum + "+"@ + term,
        None => term,
    }
}

fn append_or_self(s: Option<String>, current: String) -> (sum: String)
    ensures
        sum@ == summed(asc::opt_text(s), current@),
{
    match s {
        Some(out) => cat3(out.as_str(), "+", current.as_str()),
        None => current,
    }
}

/// The bound of a variable-length array as C text: the declared one, or
/// the limit of the module.
pub open spec fn bound_text(size: Option<Value>) -> Seq<char> {
    match size {
        Some(v) => asc::value_text(v),
        None => "VLA_LIMIT"@,
    }
}

fn bound(size: &Option<Value>) -> (text: String)
    ensures
        text@ == bound_text(*size),
{
    match size {
        Some(v) => asc::value(v),
        None => String::from_str("VLA_LIMIT"),
    }
}

/// The type that a discriminant of a union is coded as.
pub open spec fn switch_type(tp: SwitchingType) -> Type {
    match tp {
        SwitchingType::Integer(integer) => Type::Integer(integer),
        SwitchingType::Unsigned(integer) => Type::Unsigned(integer),
        SwitchingType::Enum(name) => Type::Named(NamedType::Enum(name)),
    }
}

fn switch_as_type(tp: &SwitchingType) -> (as_type: Type)
    ensures
        as_type == switch_type(*tp),
{
    match tp {
        SwitchingType::Integer(integer) => Type::Integer(*integer),
        SwitchingType::Unsigned(integer) => Type::Unsigned(*integer),
        SwitchingType::Enum(name) => Type::Named(NamedType::Enum(name.clone())),
    }
}

/// The greater of two sizes, as the C macro takes them.
pub open spec fn static_max(prev: Seq<char>, next: Seq<char>) -> Seq<char> {
    "STATIC_MAX(("@ + prev + "),("@ + next + "))"@
}

/// The C expression of the greatest wire size of `tp`, added to the sum
/// `out`: a word for each scalar of 32 bits, two for 64, `sizeof` for the
/// rest; a count word before what a pointer or a variable-length array
/// holds; the bound times the element for arrays; the sum of the fields of
/// a structure; the discriminant and the greatest arm of a union.
pub open spec fn size_within(tables: Tables, tp: Type, out: Option<Seq<char>>, depth: nat) -> Seq<char>
    decreases depth, 0nat, tp.height(),
{
    match tp {
        Type::Void => summed(out, "0"@),
        Type::Pointer(inner) => size_within(tables, *inner, Some(summed(out, "sizeof(u32)"@)), depth),
        Type::Array(inner, size) => summed(
            out,
            asc::value_text(size) + "*("@ + size_within(tables, *inner, None, depth) + ")"@,
        ),
        Type::VArray(inner, size) => summed(
            out,
            "sizeof(u32)+"@ + bound_text(size) + "*("@ + size_within(tables, *inner, None, depth)
                + ")"@,
        ),
        Type::Named(NamedType::Typedef(name)) => match lookup(tables.typedefs, name@) {
            Some(def) if depth > 0 => size_within(tables, def, out, (depth - 1) as nat),
            _ => arbitrary(),
        },
        Type::Named(NamedType::Enum(name)) => summed(out, "sizeof(enum "@ + name@ + ")"@),
        Type::Named(NamedType::Struct(name)) => match lookup(tables.structs, name@) {
            Some(st) if depth > 0 => match fields_size(
                tables,
                struct_fields(st),
                struct_fields(st).len(),
                out,
                (depth - 1) as nat,
            ) {
                Some(sum) => sum,
                None => arbitrary(),
            },
            _ => arbitrary(),
        },
        Type::Named(NamedType::Union(name)) => match lookup(tables.unions, name@) {
            Some(un) if depth > 0 => summed(
                out,
                size_within(tables, switch_type(un.switch_type), None, (depth - 1) as nat) + "+"@
                    + match arms_size(
                    tables,
                    union_arms(un.arms),
                    union_arms(un.arms).len(),
                    (depth - 1) as nat,
                ) {
                    Some(prev) => match un.default {
                        Some((_, tp)) => static_max(
                            prev,
                            size_within(tables, tp, None, (depth - 1) as nat),
                        ),
                        None => prev,
                    },
                    None => match un.default {
                        Some((_, tp)) => size_within(tables, tp, None, (depth - 1) as nat),
                        None => arbitrary(),
                    },
                },
            ),
            _ => arbitrary(),
        },
        _ => summed(out, "sizeof("@ + asc::whole_type(asc::full_type(tp, None, None)) + ")"@),
    }
}

/// The sum `out` with the sizes of the first `n` fields added.
pub open spec fn fields_size(
    tables: Tables,
    fields: Seq<(String, Type)>,
    n: nat,
    out: Option<Seq<char>>,
    depth: nat,
) -> Option<Seq<char>>
    decreases depth, 1nat, n,
{
    if n == 0 || n > fields.len() {
        out
    } else {
        Some(
            summed(
                fields_size(tables, fields, (n - 1) as nat, out, depth),
                size_within(tables, fields[n - 1].1, None, depth),
            ),
        )
    }
}

/// The greatest of the sizes of the first `n` arms, if there is an arm.
pub open spec fn arms_size(tables: Tables, arms: Seq<(Value, (String, Type))>, n: nat, depth: nat) -> Option<
    Seq<char>,
>
    decreases depth, 1nat, n,
{
    if n == 0 || n > arms.len() {
        None
    } else {
        match arms_size(tables, arms, (n - 1) as nat, depth) {
            Some(prev) => Some(static_max(prev, size_within(tables, arms[n - 1].1.1, None, depth))),
            None => Some(size_within(tables, arms[n - 1].1.1, None, depth)),
        }
    }
}

/// The C expression of the greatest wire size of `tp`.
pub open spec fn size_text(tables: Tables, tp: Type) -> Seq<char> {
    size_within(tables, tp, None, tables.depth())
}

fn static_max_text(prev: &str, next: &str) -> (text: String)
    ensures
        text@ == static_max(prev@, next@),
{
    cat5("STATIC_MAX((", prev, "),(", next, "))")
}

#[verifier::loop_isolation(false)]
fn generate_xdr_size_inner(handle: &Handle, tp: &Type, out: Option<String>, Ghost(depth): Ghost<nat>) -> (text: String)
    requires
        handle@.supports_within(*tp, depth) || *tp == Type::String || *tp == Type::Opaque,
    ensures
        text@ == size_within(handle@, *tp, asc::opt_text(out), depth),
    decreases depth, 0nat, tp.height(),
{
    match tp {
        Type::Void => append_or_self(out, String::from_str("0")),
        Type::Pointer(inner) => {
            let inner: &Type = inner;
            let sum = append_or_self(out, String::from_str("sizeof(u32)"));
            generate_xdr_size_inner(handle, inner, Some(sum), Ghost(depth))
        },
        Type::Array(inner, size) => {
            let inner: &Type = inner;
            let element = generate_xdr_size_inner(handle, inner, None, Ghost(depth));
            let count = asc::value(size);
            append_or_self(out, cat4(count.as_str(), "*(", element.as_str(), ")"))
        },
        Type::VArray(inner, size) => {
            let inner: &Type = inner;
            let element = generate_xdr_size_inner(handle, inner, None, Ghost(depth));
            let count = bound(size);
            append_or_self(out, cat5("sizeof(u32)+", count.as_str(), "*(", element.as_str(), ")"))
        },
        Type::Named(named) => match named {
            NamedType::Typedef(name) => {
                match typedef_named(&handle.typedefs, name.as_str()) {
                    Some(def) => generate_xdr_size_inner(handle, def, out, Ghost((depth - 1) as nat)),
                    None => String::new(),
                }
            },
            NamedType::Enum(name) => append_or_self(out, cat3("sizeof(enum ", name.as_str(), ")")),
            NamedType::Struct(name) => {
                match struct_named(&handle.structs, name.as_str()) {
                    Some(st) => {
                        let n = struct_len(st);
                        let mut sum = out;
                        let mut i: usize = 0;
                        while i < n
                            invariant
                                i <= n,
                                asc::opt_text(sum) == fields_size(
                                    handle@,
                                    struct_fields(*st),
                                    i as nat,
                                    asc::opt_text(out),
                                    (depth - 1) as nat,
                                ),
                            decreases n - i,
                        {
                            match struct_field(st, i) {
                                Some((_, field)) => {
                                    let term = generate_xdr_size_inner(
                                        handle,
                                        field,
                                        None,
                                        Ghost((depth - 1) as nat),
                                    );
                                    sum = Some(append_or_self(sum, term));
                                },
                                None => {},
                            }
                            i = i + 1;
                        }
                        match sum {
                            Some(sum) => sum,
                            None => String::new(),
                        }
                    },
                    None => String::new(),
                }
            },
            NamedType::Union(name) => {
                match union_named(&handle.unions, name.as_str()) {
                    Some(un) => {
                        let n = arms_len(&un.arms);
                        let mut max: Option<String> = None;
                        let mut i: usize = 0;
                        while i < n
                            invariant
                                i <= n,
                                asc::opt_text(max) == arms_size(
                                    handle@,
                                    union_arms(un.arms),
                                    i as nat,
                                    (depth - 1) as nat,
                                ),
                            decreases n - i,
                        {
                            match arms_entry(&un.arms, i) {
                                Some((_, arm)) => {
                                    let next = generate_xdr_size_inner(
                                        handle,
                                        &arm.1,
                                        None,
                                        Ghost((depth - 1) as nat),
                                    );
                                    max = match max {
                                        Some(prev) => Some(static_max_text(prev.as_str(), next.as_str())),
                                        None => Some(next),
                                    };
                                },
                                None => {},
                            }
                            i = i + 1;
                        }
                        let greatest = match max {
                            Some(prev) => match &un.default {
                                Some(arm) => {
                                    let next = generate_xdr_size_inner(
                                        handle,
                                        &arm.1,
                                        None,
                                        Ghost((depth - 1) as nat),
                                    );
                                    static_max_text(prev.as_str(), next.as_str())
                                },
                                None => prev,
                            },
                            None => match &un.default {
                                Some(arm) => generate_xdr_size_inner(
                                    handle,
                                    &arm.1,
                                    None,
                                    Ghost((depth - 1) as nat),
                                ),
                                None => String::new(),
                            },
                        };
                        let tag = generate_switch_xdr_size(handle, &un.switch_type, Ghost((depth - 1) as nat));
                        append_or_self(out, cat3(tag.as_str(), "+", greatest.as_str()))
                    },
                    None => String::new(),
                }
            },
        },
        _ => {
            let name = asc::typename(&asc::fulltype(tp));
            append_or_self(out, cat3("sizeof(", name.as_str(), ")"))
        },
    }
}

fn generate_switch_xdr_size(handle: &Handle, tp: &SwitchingType, Ghost(depth): Ghost<nat>) -> (text: String)
    ensures
        text@ == size_within(handle@, switch_type(*tp), None, depth),
    decreases depth, 1nat, 0nat,
{
    let as_type = switch_as_type(tp);
    generate_xdr_size_inner(handle, &as_type, None, Ghost(depth))
}

pub fn generate_xdr_size(handle: &Handle, tp: &Type) -> (text: String)
    requires
        handle@.supports(*tp),
    ensures
        text@ == size_text(handle@, *tp),
{
    generate_xdr_size_inner(handle, tp, None, Ghost(handle@.depth()))
}

/// A procedure whose code can be written has arguments that can be
/// written in C, a result that can if it has values, and types whose need
/// of dynamic memory can be decided.
pub proof fn supported_procedure_printable(tables: Tables, procedure: Procedure)
    requires
        tables.supports_procedure(procedure),
    ensures
        arguments_printable(procedure),
        procedure.return_type != Type::Void ==> asc::printable(procedure.return_type),
        tables.resolves_procedure(procedure),
{
    supported_resolves(tables, procedure.return_type, tables.depth());
    assert forall|i: int| 0 <= i < procedure.arguments@.len() implies tables.resolves(
        #[trigger] procedure.arguments@[i],
    ) by {
        supported_resolves(tables, procedure.arguments@[i], tables.depth());
    }
}

/// One level more of indentation.
pub open spec fn deeper(ind: Seq<char>) -> Seq<char> {
    ind + "    "@
}

/// The datum that the pointer `access` points to.
pub open spec fn pointee(access: Seq<char>) -> Seq<char> {
    "*("@ + access + ")"@
}

/// The element of the array `access` under the loop index.
pub open spec fn element(access: Seq<char>) -> Seq<char> {
    "("@ + access + ")[i]"@
}

/// The field `field` of the structure `access`.
pub open spec fn member(access: Seq<char>, field: Seq<char>) -> Seq<char> {
    "("@ + access + ")."@ + field
}

/// The field `field` of the arms of the union `name` that is `access`.
pub open spec fn arm_member(access: Seq<char>, name: Seq<char>, field: Seq<char>) -> Seq<char> {
    "("@ + access + ")."@ + name + "_u."@ + field
}

fn deeper_text(ind: &str) -> (text: String)
    ensures
        text@ == deeper(ind@),
{
    cat2(ind, "    ")
}

fn pointee_text(access: &str) -> (text: String)
    ensures
        text@ == pointee(access@),
{
    cat3("*(", access, ")")
}

fn element_text(access: &str) -> (text: String)
    ensures
        text@ == element(access@),
{
    cat3("(", access, ")[i]")
}

fn member_text(access: &str, field: &str) -> (text: String)
    ensures
        text@ == member(access@, field@),
{
    cat4("(", access, ").", field)
}

fn arm_member_text(access: &str, name: &str, field: &str) -> (text: String)
    ensures
        text@ == arm_member(access@, name@, field@),
{
    cat6("(", access, ").", name, "_u.", field)
}

/// The two lines that give the elements of the variable-length array
/// `access` the name `base`, typed as a pointer to the C type.
pub open spec fn based(s: Sink, ind: Seq<char>, access: Seq<char>, ctype: (Seq<char>, Option<Seq<char>>)) -> Sink {
    s.put(
        ind + asc::pointer_declaration_text("_base"@, ctype) + " = ("@
            + asc::pointer_declaration_text(""@, ctype) + ")(("@ + access + ").data);"@,
    ).put(ind + asc::pointer_declaration_text("base"@, ctype) + " = _base;"@)
}

fn put_based<F: File>(file: &mut F, ind: &str, access: &str, ctype: &(String, Option<String>))
    ensures
        final(file).sink() == based(old(file).sink(), ind@, access@, asc::ctype_text(*ctype)),
{
    let hidden = asc::pointer_declaration("_base", ctype);
    let cast = asc::pointer_declaration("", ctype);
    let shown = asc::pointer_declaration("base", ctype);
    emit7(file, ind, hidden.as_str(), " = (", cast.as_str(), ")((", access, ").data);");
    emit3(file, ind, shown.as_str(), " = _base;");
}

/// The sink with the code that frees what `access` of type `tp` holds in
/// dynamic memory: nothing for a type that holds none; for a pointer and
/// a variable-length array, under a test for `NULL`, the release of what
/// they hold, then `kfree` and the reset of the datum; for an array a
/// loop over its elements; for a structure each field in order; for a
/// union a `switch` over the discriminant with one case for each arm.
pub open spec fn release_within(
    s: Sink,
    tables: Tables,
    tp: Type,
    access: Seq<char>,
    ind: Seq<char>,
    depth: nat,
) -> Sink
    decreases depth, 0nat, tp.height(),
{
    if !dynamic_within(tables, tp, depth) {
        s
    } else {
        match tp {
            Type::Pointer(inner) => release_within(
                s.put(ind + "if (NULL != "@ + access + ") {"@),
                tables,
                *inner,
                pointee(access),
                deeper(ind),
                depth,
            ).put(ind + "    kfree("@ + access + ");"@).put(ind + "    "@ + access + " = NULL;"@).put(
                ind + "}"@,
            ),
            Type::Array(inner, size) => release_within(
                s.put(ind + "for (size_t i = 0; "@ + asc::value_text(size) + " > i; i++) {"@),
                tables,
                *inner,
                element(access),
                deeper(ind),
                depth,
            ).put(ind + "}"@),
            Type::VArray(inner, _) => {
                let s = s.put(ind + "if (NULL != ("@ + access + ").data) {"@);
                let s = if dynamic_within(tables, *inner, depth) {
                    release_within(
                        based(s, deeper(ind), access, asc::full_type(*inner, None, None)).put(
                            ind + "    for (size_t i = 0; ("@ + access + ").size > i; i++) {"@,
                        ),
                        tables,
                        *inner,
                        "base[i]"@,
                        deeper(deeper(ind)),
                        depth,
                    ).put(ind + "    }"@)
                } else {
                    s
                };
                s.put(ind + "    kfree(("@ + access + ").data);"@).put(
                    ind + "    ("@ + access + ").data = NULL;"@,
                ).put(ind + "    ("@ + access + ").size = 0;"@).put(ind + "}"@)
            },
            Type::Named(NamedType::Struct(name)) => match lookup(tables.structs, name@) {
                Some(st) if depth > 0 => release_fields(
                    s.put(ind + "{ // struct "@ + name@),
                    tables,
                    struct_fields(st),
                    struct_fields(st).len(),
                    access,
                    deeper(ind),
                    (depth - 1) as nat,
                ).put(ind + "}"@),
                _ => s,
            },
            Type::Named(NamedType::Union(name)) => match lookup(tables.unions, name@) {
                Some(un) if depth > 0 => {
                    let s = release_arms(
                        s.put(ind + "{ // union "@ + name@).put(
                            ind + "    switch (("@ + access + ")."@ + un.value@ + ") {"@,
                        ),
                        tables,
                        union_arms(un.arms),
                        union_arms(un.arms).len(),
                        name@,
                        access,
                        ind,
                        (depth - 1) as nat,
                    );
                    let s = match un.default {
                        Some((field, tp)) => release_within(
                            s.put(ind + "    default:"@),
                            tables,
                            tp,
                            arm_member(access, name@, field@),
                            deeper(deeper(ind)),
                            (depth - 1) as nat,
                        ).put(ind + "        break;"@),
                        None => s,
                    };
                    s.put(ind + "    }"@).put(ind + "}"@)
                },
                _ => s,
            },
            Type::Named(NamedType::Typedef(name)) => match lookup(tables.typedefs, name@) {
                Some(def) if depth > 0 => release_within(
                    s,
                    tables,
                    def,
                    access,
                    ind,
                    (depth - 1) as nat,
                ),
                _ => s,
            },
            _ => s,
        }
    }
}

/// The sink with the release of the first `n` fields of the structure
/// `access`, each at the indentation `ind`.
pub open spec fn release_fields(
    s: Sink,
    tables: Tables,
    fields: Seq<(String, Type)>,
    n: nat,
    access: Seq<char>,
    ind: Seq<char>,
    depth: nat,
) -> Sink
    decreases depth, 1nat, n,
{
    if n == 0 || n > fields.len() {
        s
    } else {
        release_within(
            release_fields(s, tables, fields, (n - 1) as nat, access, ind, depth),
            tables,
            fields[n - 1].1,
            member(access, fields[n - 1].0@),
            ind,
            depth,
        )
    }
}

/// The sink with the cases of the first `n` arms of the union `name` that
/// is `access`, the `switch` standing at the indentation `ind`.
pub open spec fn release_arms(
    s: Sink,
    tables: Tables,
    arms: Seq<(Value, (String, Type))>,
    n: nat,
    name: Seq<char>,
    access: Seq<char>,
    ind: Seq<char>,
    depth: nat,
) -> Sink
    decreases depth, 1nat, n,
{
    if n == 0 || n > arms.len() {
        s
    } else {
        release_within(
            release_arms(s, tables, arms, (n - 1) as nat, name, access, ind, depth).put(
                ind + "    case ("@ + asc::value_text(arms[n - 1].0) + "):"@,
            ),
            tables,
            arms[n - 1].1.1,
            arm_member(access, name, arms[n - 1].1.0@),
            deeper(deeper(ind)),
            depth,
        ).put(ind + "        break;"@)
    }
}

/// The indentation of an optional offset: none without one.
pub open spec fn offset_text(offset: Option<usize>) -> Seq<char> {
    match offset {
        Some(n) => spaces(n as nat),
        None => spaces(0),
    }
}

/// The sink with the code that frees what `access` of type `tp` holds.
pub open spec fn release_statement(
    s: Sink,
    tables: Tables,
    tp: Type,
    access: Seq<char>,
    offset: Option<usize>,
) -> Sink {
    release_within(s, tables, tp, access, offset_text(offset), tables.depth())
}

fn offset_indent(offset: Option<usize>) -> (ind: String)
    ensures
        ind@ == offset_text(offset),
{
    match offset {
        Some(n) => indent(n),
        None => indent(0),
    }
}

#[verifier::loop_isolation(false)]
fn release_walk<F: File>(
    handle: &Handle,
    file: &mut F,
    tp: &Type,
    access: &str,
    ind: &str,
    Ghost(depth): Ghost<nat>,
)
    requires
        handle@.supports_within(*tp, depth),
    ensures
        final(file).sink() == release_within(old(file).sink(), handle@, *tp, access@, ind@, depth),
    decreases depth, 0nat, tp.height(),
{
    proof {
        supported_resolves(handle@, *tp, depth);
    }
    if !uses_dynamic_within(handle, tp, Ghost(depth)) {
        return ;
    }
    match tp {
        Type::Pointer(inner) => {
            let inner: &Type = inner;
            emit4(file, ind, "if (NULL != ", access, ") {");
            release_walk(
                handle,
                file,
                inner,
                pointee_text(access).as_str(),
                deeper_text(ind).as_str(),
                Ghost(depth),
            );
            emit4(file, ind, "    kfree(", access, ");");
            emit4(file, ind, "    ", access, " = NULL;");
            emit2(file, ind, "}");
        },
        Type::Array(inner, size) => {
            let inner: &Type = inner;
            assert(dynamic_within(handle@, *inner, depth));
            emit4(file, ind, "for (size_t i = 0; ", asc::value(size).as_str(), " > i; i++) {");
            release_walk(
                handle,
                file,
                inner,
                element_text(access).as_str(),
                deeper_text(ind).as_str(),
                Ghost(depth),
            );
            emit2(file, ind, "}");
        },
        Type::VArray(inner, _) => {
            let inner: &Type = inner;
            emit4(file, ind, "if (NULL != (", access, ").data) {");
            proof {
                if handle@.supports_within(*inner, depth) {
                    supported_resolves(handle@, *inner, depth);
                }
            }
            if uses_dynamic_within(handle, inner, Ghost(depth)) {
                let ctype = asc::fulltype(inner);
                let inside = deeper_text(ind);
                put_based(file, inside.as_str(), access, &ctype);
                emit4(file, ind, "    for (size_t i = 0; (", access, ").size > i; i++) {");
                release_walk(
                    handle,
                    file,
                    inner,
                    "base[i]",
                    deeper_text(inside.as_str()).as_str(),
                    Ghost(depth),
                );
                emit2(file, ind, "    }");
            }
            emit4(file, ind, "    kfree((", access, ").data);");
            emit4(file, ind, "    (", access, ").data = NULL;");
            emit4(file, ind, "    (", access, ").size = 0;");
            emit2(file, ind, "}");
        },
        Type::Named(named) => match named {
            NamedType::Struct(name) => {
                match struct_named(&handle.structs, name.as_str()) {
                    Some(st) => {
                        emit3(file, ind, "{ // struct ", name.as_str());
                        let inside = deeper_text(ind);
                        let ghost start = file.sink();
                        let n = struct_len(st);
                        let mut i: usize = 0;
                        while i < n
                            invariant
                                i <= n,
                                file.sink() == release_fields(
                                    start,
                                    handle@,
                                    struct_fields(*st),
                                    i as nat,
                                    access@,
                                    inside@,
                                    (depth - 1) as nat,
                                ),
                            decreases n - i,
                        {
                            match struct_field(st, i) {
                                Some((field, tp)) => {
                                    release_walk(
                                        handle,
                                        file,
                                        tp,
                                        member_text(access, field.as_str()).as_str(),
                                        inside.as_str(),
                                        Ghost((depth - 1) as nat),
                                    );
                                },
                                None => {},
                            }
                            i = i + 1;
                        }
                        emit2(file, ind, "}");
                    },
                    None => {},
                }
            },
            NamedType::Union(name) => {
                match union_named(&handle.unions, name.as_str()) {
                    Some(un) => {
                        emit3(file, ind, "{ // union ", name.as_str());
                        emit6(file, ind, "    switch ((", access, ").", un.value.as_str(), ") {");
                        let inside = deeper_text(deeper_text(ind).as_str());
                        let ghost start = file.sink();
                        let n = arms_len(&un.arms);
                        let mut i: usize = 0;
                        while i < n
                            invariant
                                i <= n,
                                file.sink() == release_arms(
                                    start,
                                    handle@,
                                    union_arms(un.arms),
                                    i as nat,
                                    name@,
                                    access@,
                                    ind@,
                                    (depth - 1) as nat,
                                ),
                            decreases n - i,
                        {
                            match arms_entry(&un.arms, i) {
                                Some((value, arm)) => {
                                    emit4(file, ind, "    case (", asc::value(value).as_str(), "):");
                                    release_walk(
                                        handle,
                                        file,
                                        &arm.1,
                                        arm_member_text(access, name.as_str(), arm.0.as_str()).as_str(),
                                        inside.as_str(),
                                        Ghost((depth - 1) as nat),
                                    );
                                    emit2(file, ind, "        break;");
                                },
                                None => {},
                            }
                            i = i + 1;
                        }
                        match &un.default {
                            Some(arm) => {
                                emit2(file, ind, "    default:");
                                release_walk(
                                    handle,
                                    file,
                                    &arm.1,
                                    arm_member_text(access, name.as_str(), arm.0.as_str()).as_str(),
                                    inside.as_str(),
                                    Ghost((depth - 1) as nat),
                                );
                                emit2(file, ind, "        break;");
                            },
                            None => {},
                        }
                        emit2(file, ind, "    }");
                        emit2(file, ind, "}");
                    },
                    None => {},
                }
            },
            NamedType::Typedef(name) => {
                match typedef_named(&handle.typedefs, name.as_str()) {
                    Some(def) => {
                        release_walk(handle, file, def, access, ind, Ghost((depth - 1) as nat));
                    },
                    None => {},
                }
            },
            _ => {},
        },
        _ => {},
    }
}

pub fn generate_release_statement<F: File>(
    handle: &Handle,
    file: &mut F,
    tp: &Type,
    access: &str,
    offset: Option<usize>,
)
    requires
        handle@.supports(*tp),
    ensures
        final(file).sink() == release_statement(old(file).sink(), handle@, *tp, access@, offset),
{
    let ind = offset_indent(offset);
    release_walk(handle, file, tp, access, ind.as_str(), Ghost(handle@.depth()));
}

/// The sink with a call into the XDR runtime at the indentation `ind`:
/// made only while `rc` is 0, its failure kept in `rc`.
pub open spec fn checked(s: Sink, ind: Seq<char>, rc: Seq<char>, call: Seq<char>) -> Sink {
    s.put(ind + "if (0 == "@ + rc).put(ind + "    && 0 > (_rc = "@ + call + ")) {"@).put(
        ind + "    "@ + rc + " = _rc;"@,
    ).put(ind + "}"@)
}

/// The sink with a block that makes one checked call.
pub open spec fn scalar(s: Sink, ind: Seq<char>, rc: Seq<char>, call: Seq<char>) -> Sink {
    checked(s.put(ind + "{"@).put(ind + "    int _rc = 0;"@), deeper(ind), rc, call).put(ind + "}"@)
}

fn put_checked<F: File>(file: &mut F, ind: &str, rc: &str, call: &str)
    ensures
        final(file).sink() == checked(old(file).sink(), ind@, rc@, call@),
{
    emit3(file, ind, "if (0 == ", rc);
    emit4(file, ind, "    && 0 > (_rc = ", call, ")) {");
    emit4(file, ind, "    ", rc, " = _rc;");
    emit2(file, ind, "}");
}

fn put_scalar<F: File>(file: &mut F, ind: &str, rc: &str, call: &str)
    ensures
        final(file).sink() == scalar(old(file).sink(), ind@, rc@, call@),
{
    emit2(file, ind, "{");
    emit2(file, ind, "    int _rc = 0;");
    put_checked(file, deeper_text(ind).as_str(), rc, call);
    emit2(file, ind, "}");
}

/// The sink with the code that reads `access` of type `tp` from the XDR
/// stream, `rc` taking the first failure: one checked call for a scalar
/// (a word for 32 bits and booleans, two for 64, raw bytes for floats); for
/// a pointer a count of 0 or 1, then the allocation and the pointee; for
/// an array its elements in a loop, or one run of bytes if they are
/// opaque; for a variable-length array the length, held against its bound,
/// the allocation, and then the elements, or one run if they are opaque or
/// a string; for an enum a word that is assigned; for a structure each
/// field in order; for a union the discriminant and a `switch` over it.
pub open spec fn decode_within(
    s: Sink,
    tables: Tables,
    tp: Type,
    access: Seq<char>,
    rc: Seq<char>,
    ind: Seq<char>,
    depth: nat,
) -> Sink
    decreases depth, 0nat, tp.height(),
{
    match tp {
        Type::Void => s,
        Type::Integer(Integer::Integer) | Type::Unsigned(Integer::Integer) => scalar(
            s,
            ind,
            rc,
            "xdr_stream_decode_u32(xdr, &("@ + access + "))"@,
        ),
        Type::Integer(Integer::Hyper) | Type::Unsigned(Integer::Hyper) => scalar(
            s,
            ind,
            rc,
            "xdr_stream_decode_u64(xdr, &("@ + access + "))"@,
        ),
        Type::Float(Float::Single) => scalar(
            s,
            ind,
            rc,
            "xdr_stream_decode_opaque(xdr, &("@ + access + "), sizeof(float))"@,
        ),
        Type::Float(Float::Double) => scalar(
            s,
            ind,
            rc,
            "xdr_stream_decode_opaque(xdr, &("@ + access + "), sizeof(double))"@,
        ),
        Type::Boolean => scalar(s, ind, rc, "xdr_stream_decode_bool(xdr, &("@ + access + "))"@),
        Type::Pointer(inner) => {
            let s = checked(
                s.put(ind + "{"@).put(ind + "    int _rc = 0;"@).put(ind + "    u32 size = 0;"@),
                deeper(ind),
                rc,
                "xdr_stream_decode_u32(xdr, &size)"@,
            );
            let s = s.put(ind + "    if (0 == "@ + rc + " && 1 < size) {"@).put(
                ind + "        "@ + rc + " = -EMSGSIZE;"@,
            ).put(ind + "    } else if (0 == "@ + rc + " && 1 == size) {"@).put(
                ind + "        "@ + access + " = kmalloc(sizeof("@ + asc::whole_type(
                    asc::full_type(*inner, None, None),
                ) + "), GFP_KERNEL);"@,
            ).put(ind + "        if (NULL == "@ + access + ") {"@).put(
                ind + "            "@ + rc + " = -ENOMEM;"@,
            ).put(ind + "        } else {"@);
            let s = decode_within(s, tables, *inner, pointee(access), rc, deeper(deeper(deeper(ind))), depth);
            s.put(ind + "        }"@).put(ind + "    } else {"@).put(
                ind + "        "@ + access + " = NULL;"@,
            ).put(ind + "    }"@).put(ind + "}"@)
        },
        Type::Array(inner, size) => match *inner {
            Type::Opaque => scalar(
                s,
                ind,
                rc,
                "xdr_stream_decode_opaque(xdr, "@ + access + ", "@ + asc::value_text(size) + ")"@,
            ),
            _ => decode_within(
                s.put(
                    ind + "for (size_t i = 0; 0 == "@ + rc + " && "@ + asc::value_text(size)
                        + " > i; i++) {"@,
                ),
                tables,
                *inner,
                element(access),
                rc,
                deeper(ind),
                depth,
            ).put(ind + "}"@),
        },
        Type::VArray(inner, size) => {
            let s = checked(
                s.put(ind + "{"@).put(ind + "    int _rc = 0;"@),
                deeper(ind),
                rc,
                "xdr_stream_decode_u32(xdr, &("@ + access + ").size)"@,
            );
            let s = s.put(
                ind + "    if (0 == "@ + rc + " && "@ + bound_text(size) + " < ("@ + access
                    + ").size) {"@,
            ).put(ind + "        "@ + rc + " = -EMSGSIZE;"@).put(
                ind + "    } else if (0 == "@ + rc + " && 0 != ("@ + access + ").size) {"@,
            ).put(
                ind + "        ("@ + access + ").data = kmalloc(sizeof("@ + asc::whole_type(
                    asc::full_type(*inner, None, None),
                ) + ") * ("@ + access + ").size, GFP_KERNEL);"@,
            ).put(ind + "        if (NULL == ("@ + access + ").data) {"@).put(
                ind + "            "@ + rc + " = -ENOMEM;"@,
            ).put(ind + "        } else {"@);
            let s = match *inner {
                Type::Opaque => checked(
                    s.put(ind + "            int _rc = 0;"@),
                    deeper(deeper(deeper(ind))),
                    rc,
                    "xdr_stream_decode_opaque(xdr, ("@ + access + ").data, ("@ + access + ").size)"@,
                ),
                Type::String => checked(
                    s.put(ind + "            int _rc = 0;"@),
                    deeper(deeper(deeper(ind))),
                    rc,
                    "xdr_stream_decode_string(xdr, ("@ + access + ").data, ("@ + access + ").size)"@,
                ),
                _ => decode_within(
                    based(s, deeper(deeper(deeper(ind))), access, asc::full_type(*inner, None, None)).put(
                        ind + "            for (size_t i = 0; 0 == "@ + rc + " && ("@ + access
                            + ").size > i; i++) {"@,
                    ),
                    tables,
                    *inner,
                    "base[i]"@,
                    rc,
                    deeper(deeper(deeper(deeper(ind)))),
                    depth,
                ).put(ind + "            }"@),
            };
            s.put(ind + "        }"@).put(ind + "    } else {"@).put(
                ind + "        ("@ + access + ").data = NULL;"@,
            ).put(ind + "    }"@).put(ind + "}"@)
        },
        Type::Named(NamedType::Typedef(name)) => match lookup(tables.typedefs, name@) {
            Some(def) if depth > 0 => decode_within(s, tables, def, access, rc, ind, (depth - 1) as nat),
            _ => s,
        },
        Type::Named(NamedType::Enum(_)) => checked(
            s.put(ind + "{"@).put(ind + "    int _rc = 0;"@).put(ind + "    s32 num = 0;"@),
            deeper(ind),
            rc,
            "xdr_stream_decode_u32(xdr, &num)"@,
        ).put(ind + "    if (0 == "@ + rc + ") {"@).put(ind + "        "@ + access + " = num;"@).put(
            ind + "    }"@,
        ).put(ind + "}"@),
        Type::Named(NamedType::Struct(name)) => match lookup(tables.structs, name@) {
            Some(st) if depth > 0 => decode_fields(
                s.put(ind + "{ // struct "@ + name@),
                tables,
                struct_fields(st),
                struct_fields(st).len(),
                access,
                rc,
                deeper(ind),
                (depth - 1) as nat,
            ).put(ind + "}"@),
            _ => s,
        },
        Type::Named(NamedType::Union(name)) => match lookup(tables.unions, name@) {
            Some(un) if depth > 0 => {
                let s = decode_within(
                    s.put(ind + "{ // union "@ + name@),
                    tables,
                    switch_type(un.switch_type),
                    member(access, un.value@),
                    rc,
                    deeper(ind),
                    (depth - 1) as nat,
                );
                let s = decode_arms(
                    s.put(ind + "    switch (("@ + access + ")."@ + un.value@ + ") {"@),
                    tables,
                    union_arms(un.arms),
                    union_arms(un.arms).len(),
                    name@,
                    access,
                    rc,
                    ind,
                    (depth - 1) as nat,
                );
                let s = match un.default {
                    Some((field, tp)) => decode_within(
                        s.put(ind + "    default:"@),
                        tables,
                        tp,
                        arm_member(access, name@, field@),
                        rc,
                        deeper(deeper(ind)),
                        (depth - 1) as nat,
                    ).put(ind + "        break;"@),
                    None => s,
                };
                s.put(ind + "    }"@).put(ind + "}"@)
            },
            _ => s,
        },
        _ => s,
    }
}

/// The sink with the decoding of the first `n` fields of the structure
/// `access`, each at the indentation `ind`.
pub open spec fn decode_fields(
    s: Sink,
    tables: Tables,
    fields: Seq<(String, Type)>,
    n: nat,
    access: Seq<char>,
    rc: Seq<char>,
    ind: Seq<char>,
    depth: nat,
) -> Sink
    decreases depth, 1nat, n,
{
    if n == 0 || n > fields.len() {
        s
    } else {
        decode_within(
            decode_fields(s, tables, fields, (n - 1) as nat, access, rc, ind, depth),
            tables,
            fields[n - 1].1,
            member(access, fields[n - 1].0@),
            rc,
            ind,
            depth,
        )
    }
}

/// The sink with the cases of the first `n` arms of the union `name` that
/// is `access`, the `switch` standing at the indentation `ind`.
pub open spec fn decode_arms(
    s: Sink,
    tables: Tables,
    arms: Seq<(Value, (String, Type))>,
    n: nat,
    name: Seq<char>,
    access: Seq<char>,
    rc: Seq<char>,
    ind: Seq<char>,
    depth: nat,
) -> Sink
    decreases depth, 1nat, n,
{
    if n == 0 || n > arms.len() {
        s
    } else {
        decode_within(
            decode_arms(s, tables, arms, (n - 1) as nat, name, access, rc, ind, depth).put(
                ind + "    case ("@ + asc::value_text(arms[n - 1].0) + "):"@,
            ),
            tables,
            arms[n - 1].1.1,
            arm_member(access, name, arms[n - 1].1.0@),
            rc,
            deeper(deeper(ind)),
            depth,
        ).put(ind + "        break;"@)
    }
}

/// The name of the result variable: `rc` unless one is given.
pub open spec fn rc_text(rc: Option<&str>) -> Seq<char> {
    match rc {
        Some(rc) => rc@,
        None => "rc"@,
    }
}

/// The sink with the code that reads `access` of type `tp` from the XDR
/// stream.
pub open spec fn decode_statement(
    s: Sink,
    tables: Tables,
    tp: Type,
    access: Seq<char>,
    rc: Option<&str>,
    offset: Option<usize>,
) -> Sink {
    decode_within(s, tables, tp, access, rc_text(rc), offset_text(offset), tables.depth())
}

fn rc_name<'a>(rc: Option<&'a str>) -> (name: &'a str)
    ensures
        name@ == rc_text(rc),
{
    match rc {
        Some(rc) => rc,
        None => "rc",
    }
}

#[verifier::loop_isolation(false)]
fn decode_walk<F: File>(
    handle: &Handle,
    file: &mut F,
    tp: &Type,
    access: &str,
    rc: &str,
    ind: &str,
    Ghost(depth): Ghost<nat>,
)
    requires
        handle@.supports_within(*tp, depth),
    ensures
        final(file).sink() == decode_within(old(file).sink(), handle@, *tp, access@, rc@, ind@, depth),
    decreases depth, 0nat, tp.height(),
{
    match tp {
        Type::Void => {},
        Type::Integer(integer) | Type::Unsigned(integer) => match integer {
            Integer::Integer => put_scalar(
                file,
                ind,
                rc,
                cat3("xdr_stream_decode_u32(xdr, &(", access, "))").as_str(),
            ),
            Integer::Hyper => put_scalar(
                file,
                ind,
                rc,
                cat3("xdr_stream_decode_u64(xdr, &(", access, "))").as_str(),
            ),
        },
        Type::Float(float) => match float {
            Float::Single => put_scalar(
                file,
                ind,
                rc,
                cat3("xdr_stream_decode_opaque(xdr, &(", access, "), sizeof(float))").as_str(),
            ),
            Float::Double => put_scalar(
                file,
                ind,
                rc,
                cat3("xdr_stream_decode_opaque(xdr, &(", access, "), sizeof(double))").as_str(),
            ),
            Float::Quadruple => {},
        },
        Type::Boolean => put_scalar(
            file,
            ind,
            rc,
            cat3("xdr_stream_decode_bool(xdr, &(", access, "))").as_str(),
        ),
        Type::Pointer(inner) => {
            let inner: &Type = inner;
            let tname = asc::typename(&asc::fulltype(inner));
            let inside = deeper_text(ind);
            emit2(file, ind, "{");
            emit2(file, ind, "    int _rc = 0;");
            emit2(file, ind, "    u32 size = 0;");
            put_checked(file, inside.as_str(), rc, "xdr_stream_decode_u32(xdr, &size)");
            emit4(file, ind, "    if (0 == ", rc, " && 1 < size) {");
            emit4(file, ind, "        ", rc, " = -EMSGSIZE;");
            emit4(file, ind, "    } else if (0 == ", rc, " && 1 == size) {");
            emit6(file, ind, "        ", access, " = kmalloc(sizeof(", tname.as_str(), "), GFP_KERNEL);");
            emit4(file, ind, "        if (NULL == ", access, ") {");
            emit4(file, ind, "            ", rc, " = -ENOMEM;");
            emit2(file, ind, "        } else {");
            let third = deeper_text(deeper_text(inside.as_str()).as_str());
            decode_walk(handle, file, inner, pointee_text(access).as_str(), rc, third.as_str(), Ghost(depth));
            emit2(file, ind, "        }");
            emit2(file, ind, "    } else {");
            emit4(file, ind, "        ", access, " = NULL;");
            emit2(file, ind, "    }");
            emit2(file, ind, "}");
        },
        Type::Array(inner, size) => {
            let inner: &Type = inner;
            let count = asc::value(size);
            match inner {
                Type::Opaque => put_scalar(
                    file,
                    ind,
                    rc,
                    cat5("xdr_stream_decode_opaque(xdr, ", access, ", ", count.as_str(), ")").as_str(),
                ),
                _ => {
                    emit6(file, ind, "for (size_t i = 0; 0 == ", rc, " && ", count.as_str(), " > i; i++) {");
                    decode_walk(
                        handle,
                        file,
                        inner,
                        element_text(access).as_str(),
                        rc,
                        deeper_text(ind).as_str(),
                        Ghost(depth),
                    );
                    emit2(file, ind, "}");
                },
            }
        },
        Type::VArray(inner, size) => {
            let inner: &Type = inner;
            let ctype = asc::fulltype(inner);
            let name = asc::typename(&ctype);
            let count = bound(size);
            let inside = deeper_text(ind);
            let third = deeper_text(deeper_text(inside.as_str()).as_str());
            emit2(file, ind, "{");
            emit2(file, ind, "    int _rc = 0;");
            put_checked(
                file,
                inside.as_str(),
                rc,
                cat3("xdr_stream_decode_u32(xdr, &(", access, ").size)").as_str(),
            );
            emit8(file, ind, "    if (0 == ", rc, " && ", count.as_str(), " < (", access, ").size) {");
            emit4(file, ind, "        ", rc, " = -EMSGSIZE;");
            emit6(file, ind, "    } else if (0 == ", rc, " && 0 != (", access, ").size) {");
            emit8(
                file,
                ind,
                "        (",
                access,
                ").data = kmalloc(sizeof(",
                name.as_str(),
                ") * (",
                access,
                ").size, GFP_KERNEL);",
            );
            emit4(file, ind, "        if (NULL == (", access, ").data) {");
            emit4(file, ind, "            ", rc, " = -ENOMEM;");
            emit2(file, ind, "        } else {");
            match inner {
                Type::Opaque => {
                    emit2(file, ind, "            int _rc = 0;");
                    put_checked(
                        file,
                        third.as_str(),
                        rc,
                        cat5("xdr_stream_decode_opaque(xdr, (", access, ").data, (", access, ").size)").as_str(),
                    );
                },
                Type::String => {
                    emit2(file, ind, "            int _rc = 0;");
                    put_checked(
                        file,
                        third.as_str(),
                        rc,
                        cat5("xdr_stream_decode_string(xdr, (", access, ").data, (", access, ").size)").as_str(),
                    );
                },
                _ => {
                    put_based(file, third.as_str(), access, &ctype);
                    emit6(
                        file,
                        ind,
                        "            for (size_t i = 0; 0 == ",
                        rc,
                        " && (",
                        access,
                        ").size > i; i++) {",
                    );
                    decode_walk(
                        handle,
                        file,
                        inner,
                        "base[i]",
                        rc,
                        deeper_text(third.as_str()).as_str(),
                        Ghost(depth),
                    );
                    emit2(file, ind, "            }");
                },
            }
            emit2(file, ind, "        }");
            emit2(file, ind, "    } else {");
            emit4(file, ind, "        (", access, ").data = NULL;");
            emit2(file, ind, "    }");
            emit2(file, ind, "}");
        },
        Type::Named(named) => match named {
            NamedType::Typedef(name) => {
                match typedef_named(&handle.typedefs, name.as_str()) {
                    Some(def) => {
                        decode_walk(handle, file, def, access, rc, ind, Ghost((depth - 1) as nat));
                    },
                    None => {},
                }
            },
            NamedType::Enum(_) => {
                emit2(file, ind, "{");
                emit2(file, ind, "    int _rc = 0;");
                emit2(file, ind, "    s32 num = 0;");
                put_checked(file, deeper_text(ind).as_str(), rc, "xdr_stream_decode_u32(xdr, &num)");
                emit4(file, ind, "    if (0 == ", rc, ") {");
                emit4(file, ind, "        ", access, " = num;");
                emit2(file, ind, "    }");
                emit2(file, ind, "}");
            },
            NamedType::Struct(name) => {
                match struct_named(&handle.structs, name.as_str()) {
                    Some(st) => {
                        emit3(file, ind, "{ // struct ", name.as_str());
                        let inside = deeper_text(ind);
                        let ghost start = file.sink();
                        let n = struct_len(st);
                        let mut i: usize = 0;
                        while i < n
                            invariant
                                i <= n,
                                file.sink() == decode_fields(
                                    start,
                                    handle@,
                                    struct_fields(*st),
                                    i as nat,
                                    access@,
                                    rc@,
                                    inside@,
                                    (depth - 1) as nat,
                                ),
                            decreases n - i,
                        {
                            match struct_field(st, i) {
                                Some((field, tp)) => {
                                    decode_walk(
                                        handle,
                                        file,
                                        tp,
                                        member_text(access, field.as_str()).as_str(),
                                        rc,
                                        inside.as_str(),
                                        Ghost((depth - 1) as nat),
                                    );
                                },
                                None => {},
                            }
                            i = i + 1;
                        }
                        emit2(file, ind, "}");
                    },
                    None => {},
                }
            },
            NamedType::Union(name) => {
                match union_named(&handle.unions, name.as_str()) {
                    Some(un) => {
                        emit3(file, ind, "{ // union ", name.as_str());
                        generate_switch_decode_statement(
                            handle,
                            file,
                            &un.switch_type,
                            member_text(access, un.value.as_str()).as_str(),
                            rc,
                            deeper_text(ind).as_str(),
                            Ghost((depth - 1) as nat),
                        );
                        emit6(file, ind, "    switch ((", access, ").", un.value.as_str(), ") {");
                        let inside = deeper_text(deeper_text(ind).as_str());
                        let ghost start = file.sink();
                        let n = arms_len(&un.arms);
                        let mut i: usize = 0;
                        while i < n
                            invariant
                                i <= n,
                                file.sink() == decode_arms(
                                    start,
                                    handle@,
                                    union_arms(un.arms),
                                    i as nat,
                                    name@,
                                    access@,
                                    rc@,
                                    ind@,
                                    (depth - 1) as nat,
                                ),
                            decreases n - i,
                        {
                            match arms_entry(&un.arms, i) {
                                Some((value, arm)) => {
                                    emit4(file, ind, "    case (", asc::value(value).as_str(), "):");
                                    decode_walk(
                                        handle,
                                        file,
                                        &arm.1,
                                        arm_member_text(access, name.as_str(), arm.0.as_str()).as_str(),
                                        rc,
                                        inside.as_str(),
                                        Ghost((depth - 1) as nat),
                                    );
                                    emit2(file, ind, "        break;");
                                },
                                None => {},
                            }
                            i = i + 1;
                        }
                        match &un.default {
                            Some(arm) => {
                                emit2(file, ind, "    default:");
                                decode_walk(
                                    handle,
                                    file,
                                    &arm.1,
                                    arm_member_text(access, name.as_str(), arm.0.as_str()).as_str(),
                                    rc,
                                    inside.as_str(),
                                    Ghost((depth - 1) as nat),
                                );
                                emit2(file, ind, "        break;");
                            },
                            None => {},
                        }
                        emit2(file, ind, "    }");
                        emit2(file, ind, "}");
                    },
                    None => {},
                }
            },
        },
        Type::String => {},
        Type::Opaque => {},
    }
}

fn generate_switch_decode_statement<F: File>(
    handle: &Handle,
    file: &mut F,
    tp: &SwitchingType,
    access: &str,
    rc: &str,
    ind: &str,
    Ghost(depth): Ghost<nat>,
)
    ensures
        final(file).sink() == decode_within(
            old(file).sink(),
            handle@,
            switch_type(*tp),
            access@,
            rc@,
            ind@,
            depth,
        ),
    decreases depth, 1nat, 0nat,
{
    let as_type = switch_as_type(tp);
    decode_walk(handle, file, &as_type, access, rc, ind, Ghost(depth));
}

pub fn generate_decode_statement<F: File>(
    handle: &Handle,
    file: &mut F,
    tp: &Type,
    access: &str,
    rc: Option<&str>,
    offset: Option<usize>,
)
    requires
        handle@.supports(*tp),
    ensures
        final(file).sink() == decode_statement(old(file).sink(), handle@, *tp, access@, rc, offset),
{
    let ind = offset_indent(offset);
    decode_walk(handle, file, tp, access, rc_name(rc), ind.as_str(), Ghost(handle@.depth()));
}

/// The sink with the code that writes `access` of type `tp` to the XDR
/// stream, `rc` taking the first failure: one checked call for a scalar;
/// for a pointer a count of 0 for `NULL` and 1 otherwise, then the
/// pointee; for an array, refused if `NULL`, its elements in a loop, or
/// one run of bytes if they are opaque; for a variable-length array,
/// refused without data or over its bound, the length and then the
/// elements, or one run if they are opaque or a string; for an enum a
/// word; for a structure each field in order; for a union the
/// discriminant and a `switch` over it.
pub open spec fn encode_within(
    s: Sink,
    tables: Tables,
    tp: Type,
    access: Seq<char>,
    rc: Seq<char>,
    ind: Seq<char>,
    depth: nat,
) -> Sink
    decreases depth, 0nat, tp.height(),
{
    match tp {
        Type::Void => s,
        Type::Integer(Integer::Integer) | Type::Unsigned(Integer::Integer) => scalar(
            s,
            ind,
            rc,
            "xdr_stream_encode_u32(xdr, "@ + access + ")"@,
        ),
        Type::Integer(Integer::Hyper) | Type::Unsigned(Integer::Hyper) => scalar(
            s,
            ind,
            rc,
            "xdr_stream_encode_u64(xdr, "@ + access + ")"@,
        ),
        Type::Float(Float::Single) => scalar(
            s,
            ind,
            rc,
            "xdr_stream_encode_opaque(xdr, &("@ + access + "), sizeof(float))"@,
        ),
        Type::Float(Float::Double) => scalar(
            s,
            ind,
            rc,
            "xdr_stream_encode_opaque(xdr, &("@ + access + "), sizeof(double))"@,
        ),
        Type::Boolean => scalar(s, ind, rc, "xdr_stream_encode_bool(xdr, "@ + access + ")"@),
        Type::Pointer(inner) => {
            let s = checked(
                s.put(ind + "{"@).put(ind + "    int _rc = 0;"@).put(
                    ind + "    u32 size = (NULL == "@ + access + ") ? 0 : 1;"@,
                ),
                deeper(ind),
                rc,
                "xdr_stream_encode_u32(xdr, size)"@,
            );
            let s = s.put(ind + "    if (0 == "@ + rc + " && 1 == size) {"@);
            let s = encode_within(s, tables, *inner, pointee(access), rc, deeper(deeper(ind)), depth);
            s.put(ind + "    }"@).put(ind + "}"@)
        },
        Type::Array(inner, size) => {
            let s = s.put(ind + "{"@).put(ind + "    if (0 == "@ + rc + " && NULL == "@ + access + ") {"@).put(
                ind + "        "@ + rc + " = -EINVAL;"@,
            ).put(ind + "    }"@);
            let s = match *inner {
                Type::Opaque => checked(
                    s.put(ind + "    int _rc = 0;"@),
                    deeper(ind),
                    rc,
                    "xdr_stream_encode_opaque(xdr, "@ + access + ", "@ + asc::value_text(size) + ")"@,
                ),
                _ => encode_within(
                    s.put(
                        ind + "    for (size_t i = 0; 0 == "@ + rc + " && "@ + asc::value_text(size)
                            + " > i; i++) {"@,
                    ),
                    tables,
                    *inner,
                    element(access),
                    rc,
                    deeper(deeper(ind)),
                    depth,
                ).put(ind + "    }"@),
            };
            s.put(ind + "}"@)
        },
        Type::VArray(inner, size) => {
            let s = s.put(ind + "{"@).put(ind + "    int _rc = 0;"@).put(ind + "    if (0 == "@ + rc).put(
                ind + "        && 0 != ("@ + access + ").size"@,
            ).put(ind + "        && NULL == ("@ + access + ").data) {"@).put(
                ind + "        "@ + rc + " = -EINVAL;"@,
            ).put(ind + "    }"@).put(
                ind + "    if (0 == "@ + rc + " && "@ + bound_text(size) + " < ("@ + access
                    + ").size) {"@,
            ).put(ind + "        "@ + rc + " = -EMSGSIZE;"@).put(ind + "    }"@);
            let s = checked(s, deeper(ind), rc, "xdr_stream_encode_u32(xdr, ("@ + access + ").size)"@);
            let s = s.put(ind + "    if (0 == "@ + rc + " && 0 != ("@ + access + ").size) {"@);
            let s = match *inner {
                Type::Opaque | Type::String => checked(
                    s.put(ind + "        int _rc = 0;"@),
                    deeper(deeper(ind)),
                    rc,
                    "xdr_stream_encode_opaque(xdr, ("@ + access + ").data, ("@ + access + ").size)"@,
                ),
                _ => encode_within(
                    based(s, deeper(deeper(ind)), access, asc::full_type(*inner, None, None)).put(
                        ind + "        for (size_t i = 0; 0 == "@ + rc + " && ("@ + access
                            + ").size > i; i++) {"@,
                    ),
                    tables,
                    *inner,
                    "base[i]"@,
                    rc,
                    deeper(deeper(deeper(ind))),
                    depth,
                ).put(ind + "        }"@),
            };
            s.put(ind + "    }"@).put(ind + "}"@)
        },
        Type::Named(NamedType::Typedef(name)) => match lookup(tables.typedefs, name@) {
            Some(def) if depth > 0 => encode_within(s, tables, def, access, rc, ind, (depth - 1) as nat),
            _ => s,
        },
        Type::Named(NamedType::Enum(_)) => checked(
            s.put(ind + "{"@).put(ind + "    int _rc = 0;"@).put(ind + "    s32 num = "@ + access + ";"@),
            deeper(ind),
            rc,
            "xdr_stream_encode_u32(xdr, num)"@,
        ).put(ind + "}"@),
        Type::Named(NamedType::Struct(name)) => match lookup(tables.structs, name@) {
            Some(st) if depth > 0 => encode_fields(
                s.put(ind + "{ // struct "@ + name@),
                tables,
                struct_fields(st),
                struct_fields(st).len(),
                access,
                rc,
                deeper(ind),
                (depth - 1) as nat,
            ).put(ind + "}"@),
            _ => s,
        },
        Type::Named(NamedType::Union(name)) => match lookup(tables.unions, name@) {
            Some(un) if depth > 0 => {
                let s = encode_within(
                    s.put(ind + "{ // union "@ + name@),
                    tables,
                    switch_type(un.switch_type),
                    member(access, un.value@),
                    rc,
                    deeper(ind),
                    (depth - 1) as nat,
                );
                let s = encode_arms(
                    s.put(ind + "    switch (("@ + access + ")."@ + un.value@ + ") {"@),
                    tables,
                    union_arms(un.arms),
                    union_arms(un.arms).len(),
                    name@,
                    access,
                    rc,
                    ind,
                    (depth - 1) as nat,
                );
                let s = match un.default {
                    Some((field, tp)) => encode_within(
                        s.put(ind + "    default:"@),
                        tables,
                        tp,
                        arm_member(access, name@, field@),
                        rc,
                        deeper(deeper(ind)),
                        (depth - 1) as nat,
                    ).put(ind + "        break;"@),
                    None => s,
                };
                s.put(ind + "    }"@).put(ind + "}"@)
            },
            _ => s,
        },
        _ => s,
    }
}

/// The sink with the encoding of the first `n` fields of the structure
/// `access`, each at the indentation `ind`.
pub open spec fn encode_fields(
    s: Sink,
    tables: Tables,
    fields: Seq<(String, Type)>,
    n: nat,
    access: Seq<char>,
    rc: Seq<char>,
    ind: Seq<char>,
    depth: nat,
) -> Sink
    decreases depth, 1nat, n,
{
    if n == 0 || n > fields.len() {
        s
    } else {
        encode_within(
            encode_fields(s, tables, fields, (n - 1) as nat, access, rc, ind, depth),
            tables,
            fields[n - 1].1,
            member(access, fields[n - 1].0@),
            rc,
            ind,
            depth,
        )
    }
}

/// The sink with the cases of the first `n` arms of the union `name` that
/// is `access`, the `switch` standing at the indentation `ind`.
pub open spec fn encode_arms(
    s: Sink,
    tables: Tables,
    arms: Seq<(Value, (String, Type))>,
    n: nat,
    name: Seq<char>,
    access: Seq<char>,
    rc: Seq<char>,
    ind: Seq<char>,
    depth: nat,
) -> Sink
    decreases depth, 1nat, n,
{
    if n == 0 || n > arms.len() {
        s
    } else {
        encode_within(
            encode_arms(s, tables, arms, (n - 1) as nat, name, access, rc, ind, depth).put(
                ind + "    case ("@ + asc::value_text(arms[n - 1].0) + "):"@,
            ),
            tables,
            arms[n - 1].1.1,
            arm_member(access, name, arms[n - 1].1.0@),
            rc,
            deeper(deeper(ind)),
            depth,
        ).put(ind + "        break;"@)
    }
}

/// The sink with the code that writes `access` of type `tp` to the XDR
/// stream.
pub open spec fn encode_statement(
    s: Sink,
    tables: Tables,
    tp: Type,
    access: Seq<char>,
    rc: Option<&str>,
    offset: Option<usize>,
) -> Sink {
    encode_within(s, tables, tp, access, rc_text(rc), offset_text(offset), tables.depth())
}

#[verifier::loop_isolation(false)]
fn encode_walk<F: File>(
    handle: &Handle,
    file: &mut F,
    tp: &Type,
    access: &str,
    rc: &str,
    ind: &str,
    Ghost(depth): Ghost<nat>,
)
    requires
        handle@.supports_within(*tp, depth),
    ensures
        final(file).sink() == encode_within(old(file).sink(), handle@, *tp, access@, rc@, ind@, depth),
    decreases depth, 0nat, tp.height(),
{
    match tp {
        Type::Void => {},
        Type::Integer(integer) | Type::Unsigned(integer) => match integer {
            Integer::Integer => put_scalar(
                file,
                ind,
                rc,
                cat3("xdr_stream_encode_u32(xdr, ", access, ")").as_str(),
            ),
            Integer::Hyper => put_scalar(
                file,
                ind,
                rc,
                cat3("xdr_stream_encode_u64(xdr, ", access, ")").as_str(),
            ),
        },
        Type::Float(float) => match float {
            Float::Single => put_scalar(
                file,
                ind,
                rc,
                cat3("xdr_stream_encode_opaque(xdr, &(", access, "), sizeof(float))").as_str(),
            ),
            Float::Double => put_scalar(
                file,
                ind,
                rc,
                cat3("xdr_stream_encode_opaque(xdr, &(", access, "), sizeof(double))").as_str(),
            ),
            Float::Quadruple => {},
        },
        Type::Boolean => put_scalar(
            file,
            ind,
            rc,
            cat3("xdr_stream_encode_bool(xdr, ", access, ")").as_str(),
        ),
        Type::Pointer(inner) => {
            let inner: &Type = inner;
            let inside = deeper_text(ind);
            emit2(file, ind, "{");
            emit2(file, ind, "    int _rc = 0;");
            emit4(file, ind, "    u32 size = (NULL == ", access, ") ? 0 : 1;");
            put_checked(file, inside.as_str(), rc, "xdr_stream_encode_u32(xdr, size)");
            emit4(file, ind, "    if (0 == ", rc, " && 1 == size) {");
            encode_walk(
                handle,
                file,
                inner,
                pointee_text(access).as_str(),
                rc,
                deeper_text(inside.as_str()).as_str(),
                Ghost(depth),
            );
            emit2(file, ind, "    }");
            emit2(file, ind, "}");
        },
        Type::Array(inner, size) => {
            let inner: &Type = inner;
            let count = asc::value(size);
            let inside = deeper_text(ind);
            emit2(file, ind, "{");
            emit6(file, ind, "    if (0 == ", rc, " && NULL == ", access, ") {");
            emit4(file, ind, "        ", rc, " = -EINVAL;");
            emit2(file, ind, "    }");
            match inner {
                Type::Opaque => {
                    emit2(file, ind, "    int _rc = 0;");
                    put_checked(
                        file,
                        inside.as_str(),
                        rc,
                        cat5("xdr_stream_encode_opaque(xdr, ", access, ", ", count.as_str(), ")").as_str(),
                    );
                },
                _ => {
                    emit6(
                        file,
                        ind,
                        "    for (size_t i = 0; 0 == ",
                        rc,
                        " && ",
                        count.as_str(),
                        " > i; i++) {",
                    );
                    encode_walk(
                        handle,
                        file,
                        inner,
                        element_text(access).as_str(),
                        rc,
                        deeper_text(inside.as_str()).as_str(),
                        Ghost(depth),
                    );
                    emit2(file, ind, "    }");
                },
            }
            emit2(file, ind, "}");
        },
        Type::VArray(inner, size) => {
            let inner: &Type = inner;
            let count = bound(size);
            let inside = deeper_text(ind);
            let second = deeper_text(inside.as_str());
            emit2(file, ind, "{");
            emit2(file, ind, "    int _rc = 0;");
            emit3(file, ind, "    if (0 == ", rc);
            emit4(file, ind, "        && 0 != (", access, ").size");
            emit4(file, ind, "        && NULL == (", access, ").data) {");
            emit4(file, ind, "        ", rc, " = -EINVAL;");
            emit2(file, ind, "    }");
            emit8(file, ind, "    if (0 == ", rc, " && ", count.as_str(), " < (", access, ").size) {");
            emit4(file, ind, "        ", rc, " = -EMSGSIZE;");
            emit2(file, ind, "    }");
            put_checked(
                file,
                inside.as_str(),
                rc,
                cat3("xdr_stream_encode_u32(xdr, (", access, ").size)").as_str(),
            );
            emit6(file, ind, "    if (0 == ", rc, " && 0 != (", access, ").size) {");
            match inner {
                Type::Opaque | Type::String => {
                    emit2(file, ind, "        int _rc = 0;");
                    put_checked(
                        file,
                        second.as_str(),
                        rc,
                        cat5("xdr_stream_encode_opaque(xdr, (", access, ").data, (", access, ").size)").as_str(),
                    );
                },
                _ => {
                    let ctype = asc::fulltype(inner);
                    put_based(file, second.as_str(), access, &ctype);
                    emit6(
                        file,
                        ind,
                        "        for (size_t i = 0; 0 == ",
                        rc,
                        " && (",
                        access,
                        ").size > i; i++) {",
                    );
                    encode_walk(
                        handle,
                        file,
                        inner,
                        "base[i]",
                        rc,
                        deeper_text(second.as_str()).as_str(),
                        Ghost(depth),
                    );
                    emit2(file, ind, "        }");
                },
            }
            emit2(file, ind, "    }");
            emit2(file, ind, "}");
        },
        Type::Named(named) => match named {
            NamedType::Typedef(name) => {
                match typedef_named(&handle.typedefs, name.as_str()) {
                    Some(def) => {
                        encode_walk(handle, file, def, access, rc, ind, Ghost((depth - 1) as nat));
                    },
                    None => {},
                }
            },
            NamedType::Enum(_) => {
                emit2(file, ind, "{");
                emit2(file, ind, "    int _rc = 0;");
                emit4(file, ind, "    s32 num = ", access, ";");
                put_checked(file, deeper_text(ind).as_str(), rc, "xdr_stream_encode_u32(xdr, num)");
                emit2(file, ind, "}");
            },
            NamedType::Struct(name) => {
                match struct_named(&handle.structs, name.as_str()) {
                    Some(st) => {
                        emit3(file, ind, "{ // struct ", name.as_str());
                        let inside = deeper_text(ind);
                        let ghost start = file.sink();
                        let n = struct_len(st);
                        let mut i: usize = 0;
                        while i < n
                            invariant
                                i <= n,
                                file.sink() == encode_fields(
                                    start,
                                    handle@,
                                    struct_fields(*st),
                                    i as nat,
                                    access@,
                                    rc@,
                                    inside@,
                                    (depth - 1) as nat,
                                ),
                            decreases n - i,
                        {
                            match struct_field(st, i) {
                                Some((field, tp)) => {
                                    encode_walk(
                                        handle,
                                        file,
                                        tp,
                                        member_text(access, field.as_str()).as_str(),
                                        rc,
                                        inside.as_str(),
                                        Ghost((depth - 1) as nat),
                                    );
                                },
                                None => {},
                            }
                            i = i + 1;
                        }
                        emit2(file, ind, "}");
                    },
                    None => {},
                }
            },
            NamedType::Union(name) => {
                match union_named(&handle.unions, name.as_str()) {
                    Some(un) => {
                        emit3(file, ind, "{ // union ", name.as_str());
                        generate_switch_encode_statement(
                            handle,
                            file,
                            &un.switch_type,
                            member_text(access, un.value.as_str()).as_str(),
                            rc,
                            deeper_text(ind).as_str(),
                            Ghost((depth - 1) as nat),
                        );
                        emit6(file, ind, "    switch ((", access, ").", un.value.as_str(), ") {");
                        let inside = deeper_text(deeper_text(ind).as_str());
                        let ghost start = file.sink();
                        let n = arms_len(&un.arms);
                        let mut i: usize = 0;
                        while i < n
                            invariant
                                i <= n,
                                file.sink() == encode_arms(
                                    start,
                                    handle@,
                                    union_arms(un.arms),
                                    i as nat,
                                    name@,
                                    access@,
                                    rc@,
                                    ind@,
                                    (depth - 1) as nat,
                                ),
                            decreases n - i,
                        {
                            match arms_entry(&un.arms, i) {
                                Some((value, arm)) => {
                                    emit4(file, ind, "    case (", asc::value(value).as_str(), "):");
                                    encode_walk(
                                        handle,
                                        file,
                                        &arm.1,
                                        arm_member_text(access, name.as_str(), arm.0.as_str()).as_str(),
                                        rc,
                                        inside.as_str(),
                                        Ghost((depth - 1) as nat),
                                    );
                                    emit2(file, ind, "        break;");
                                },
                                None => {},
                            }
                            i = i + 1;
                        }
                        match &un.default {
                            Some(arm) => {
                                emit2(file, ind, "    default:");
                                encode_walk(
                                    handle,
                                    file,
                                    &arm.1,
                                    arm_member_text(access, name.as_str(), arm.0.as_str()).as_str(),
                                    rc,
                                    inside.as_str(),
                                    Ghost((depth - 1) as nat),
                                );
                                emit2(file, ind, "        break;");
                            },
                            None => {},
                        }
                        emit2(file, ind, "    }");
                        emit2(file, ind, "}");
                    },
                    None => {},
                }
            },
        },
        Type::String => {},
        Type::Opaque => {},
    }
}

fn generate_switch_encode_statement<F: File>(
    handle: &Handle,
    file: &mut F,
    tp: &SwitchingType,
    access: &str,
    rc: &str,
    ind: &str,
    Ghost(depth): Ghost<nat>,
)
    ensures
        final(file).sink() == encode_within(
            old(file).sink(),
            handle@,
            switch_type(*tp),
            access@,
            rc@,
            ind@,
            depth,
        ),
    decreases depth, 1nat, 0nat,
{
    let as_type = switch_as_type(tp);
    encode_walk(handle, file, &as_type, access, rc, ind, Ghost(depth));
}

pub fn generate_encode_statement<F: File>(
    handle: &Handle,
    file: &mut F,
    tp: &Type,
    access: &str,
    rc: Option<&str>,
    offset: Option<usize>,
)
    requires
        handle@.supports(*tp),
    ensures
        final(file).sink() == encode_statement(old(file).sink(), handle@, *tp, access@, rc, offset),
{
    let ind = offset_indent(offset);
    encode_walk(handle, file, tp, access, rc_name(rc), ind.as_str(), Ghost(handle@.depth()));
}

/// The name of the structure that wraps the arguments of a procedure.
pub open spec fn wrap_name(procedure: Procedure) -> Seq<char> {
    procedure.name@ + "_argument_wrap"@
}

/// The name of the field that wraps the argument at a position.
pub open spec fn argument_name(i: nat) -> Seq<char> {
    "arg"@ + decimal(i as int)
}

/// Whether the fields are the arguments in order, each under its name.
pub open spec fn wraps(fields: Seq<(String, Type)>, arguments: Seq<Type>) -> bool {
    &&& fields.len() == arguments.len()
    &&& forall|i: int|
        0 <= i < fields.len() ==> (#[trigger] fields[i]).0@ == argument_name(i as nat) && fields[i].1
            == arguments[i]
}

fn argument_field(i: usize) -> (name: String)
    ensures
        name@ == argument_name(i as nat),
{
    let number = unsigned_text(i as u64);
    cat2("arg", number.as_str())
}

/// The structure that takes the arguments of a procedure as its fields
/// `arg0`, `arg1` and so on, with its name.
pub fn generate_argument_wrap_struct(_handle: &Handle, procedure: &Procedure) -> (wrap: (String, Struct))
    ensures
        wrap.0@ == wrap_name(*procedure),
        wraps(struct_fields(wrap.1), procedure.arguments@),
{
    let name = cat2(procedure.name.as_str(), "_argument_wrap");
    let mut st = new_struct();
    let n = procedure.arguments.len();
    let mut i: usize = 0;
    while i < n
        invariant
            n == procedure.arguments@.len(),
            i <= n,
            struct_fields(st).len() == i,
            forall|j: int|
                0 <= j < i ==> (#[trigger] struct_fields(st)[j]).0@ == argument_name(j as nat)
                    && struct_fields(st)[j].1 == procedure.arguments@[j],
        decreases n - i,
    {
        let field = argument_field(i);
        proof {
            assert forall|j: int| 0 <= j < struct_fields(st).len() implies (
            #[trigger] struct_fields(st)[j]).0@ != field@ by {
                numbered_distinct("arg"@, j as nat, i as nat);
            }
        }
        struct_insert(&mut st, field, procedure.arguments[i].clone());
        i = i + 1;
    }
    (name, st)
}

/// Whether every argument of the procedure can be written in C.
pub open spec fn arguments_printable(procedure: Procedure) -> bool {
    forall|i: int| 0 <= i < procedure.arguments@.len() ==> asc::printable(#[trigger] procedure.arguments@[i])
}

/// The sink with the structure that wraps the arguments of a procedure of
/// two arguments or more.
pub open spec fn argument_wrap(s: Sink, procedure: Procedure) -> Sink {
    if procedure.arguments@.len() <= 1 {
        s
    } else {
        wrapped_arguments(
            s.put("struct "@ + wrap_name(procedure) + " {"@),
            procedure.arguments@,
            procedure.arguments@.len(),
        ).put("};"@)
    }
}

/// The sink with the declarations of the first `n` arguments as fields.
pub open spec fn wrapped_arguments(s: Sink, arguments: Seq<Type>, n: nat) -> Sink
    decreases n,
{
    if n == 0 || n > arguments.len() {
        s
    } else {
        wrapped_arguments(s, arguments, (n - 1) as nat).put(
            "    "@ + asc::declaration_text(
                argument_name((n - 1) as nat),
                asc::full_type(arguments[n - 1], None, None),
            ) + ";"@,
        )
    }
}

/// Declares the structure that wraps the arguments of a procedure, if it
/// has two or more, and says whether it did.
pub fn generate_argument_wrap<F: File>(_handle: &Handle, file: &mut F, procedure: &Procedure) -> (wrapped: bool)
    requires
        procedure.arguments@.len() > 1 ==> arguments_printable(*procedure),
    ensures
        wrapped == (procedure.arguments@.len() > 1),
        final(file).sink() == argument_wrap(old(file).sink(), *procedure),
{
    let n = procedure.arguments.len();
    if 1 >= n {
        false
    } else {
        let name = cat2(procedure.name.as_str(), "_argument_wrap");
        emit3(file, "struct ", name.as_str(), " {");
        let ghost start = file.sink();
        let mut i: usize = 0;
        while i < n
            invariant
                n == procedure.arguments@.len(),
                i <= n,
                arguments_printable(*procedure),
                file.sink() == wrapped_arguments(start, procedure.arguments@, i as nat),
            decreases n - i,
        {
            let field = argument_field(i);
            let text = asc::declaration(field.as_str(), &asc::fulltype(&procedure.arguments[i]));
            emit3(file, "    ", text.as_str(), ";");
            i = i + 1;
        }
        emit(file, "};");
        true
    }
}

/// The sink with the definitions that every module's types lean on.
pub open spec fn misc_types_lines(s: Sink) -> Sink {
    s.put("#define STATIC_MAX(a, b) (((a) > (b)) ? (a) : (b))"@).put(""@).put("struct _vla {"@).put(
        "    u32 size;   // Amount of elements (For more information see the specification)"@,
    ).put("    void *data;"@).put("};"@).put("typedef struct _vla vla_t;"@).put(
        "typedef struct _vla string_t;"@,
    ).put("#define vla(type) vla_t"@)
}

pub fn misc_types<F: File>(file: &mut F)
    ensures
        final(file).sink() == misc_types_lines(old(file).sink()),
{
    emit(file, "#define STATIC_MAX(a, b) (((a) > (b)) ? (a) : (b))");
    emit(file, "");
    emit(file, "struct _vla {");
    emit(file, "    u32 size;   // Amount of elements (For more information see the specification)");
    emit(file, "    void *data;");
    emit(file, "};");
    emit(file, "typedef struct _vla vla_t;");
    emit(file, "typedef struct _vla string_t;");
    emit(file, "#define vla(type) vla_t");
}

/// The constants that the configuration gives to the sources.
pub struct Constants {
    pub vla_limit: usize,
}

impl Constants {
    pub fn new(cfg: &Option<Config>) -> (constants: Self)
        ensures
            constants.vla_limit == vla_limit_of(*cfg),
    {
        Constants { vla_limit: vla_limit(cfg) }
    }
}

/// The sink with the definition of the bound of arrays declared without
/// one.
pub open spec fn misc_constants_lines(s: Sink, cfg: Constants) -> Sink {
    s.put("#define VLA_LIMIT "@ + decimal(cfg.vla_limit as int))
}

pub fn misc_constants<F: File>(file: &mut F, cfg: Constants)
    ensures
        final(file).sink() == misc_constants_lines(old(file).sink(), cfg),
{
    let limit = unsigned_text(cfg.vla_limit as u64);
    emit2(file, "#define VLA_LIMIT ", limit.as_str());
}

/// The sum of the wire sizes of the first `n` arguments, those of size
/// `0` left out, if any is left.
pub open spec fn summed_sizes(tables: Tables, arguments: Seq<Type>, n: nat) -> Option<Seq<char>>
    decreases n,
{
    if n == 0 || n > arguments.len() {
        None
    } else {
        let sum = summed_sizes(tables, arguments, (n - 1) as nat);
        let size = size_text(tables, arguments[n - 1]);
        if size == "0"@ {
            sum
        } else {
            match sum {
                Some(sum) => Some(sum + "+"@ + size),
                None => Some(size),
            }
        }
    }
}

/// The C expression of the greatest wire size of the arguments together:
/// the sum of their sizes, or `0` where none has a size.
pub open spec fn arguments_size_text(tables: Tables, arguments: Seq<Type>) -> Seq<char> {
    match summed_sizes(tables, arguments, arguments.len()) {
        Some(sum) => sum,
        None => "0"@,
    }
}

/// Sums the wire sizes of the arguments of a procedure.
pub fn arguments_size(handle: &Handle, procedure: &Procedure) -> (text: String)
    requires
        handle@.supports_procedure(*procedure),
    ensures
        text@ == arguments_size_text(handle@, procedure.arguments@),
{
    let n = procedure.arguments.len();
    let mut sum: Option<String> = None;
    let mut i: usize = 0;
    while i < n
        invariant
            n == procedure.arguments@.len(),
            i <= n,
            handle@.supports_procedure(*procedure),
            asc::opt_text(sum) == summed_sizes(handle@, procedure.arguments@, i as nat),
        decreases n - i,
    {
        let size = generate_xdr_size(handle, &procedure.arguments[i]);
        if !same_text("0", size.as_str()) {
            sum = match sum {
                Some(sum) => Some(cat3(sum.as_str(), "+", size.as_str())),
                None => Some(size),
            };
        }
        i = i + 1;
    }
    match sum {
        Some(sum) => sum,
        None => String::from_str("0"),
    }
}

} // verus!
