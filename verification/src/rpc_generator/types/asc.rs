//! How values and types are written in C.

use vstd::prelude::*;
use crate::rpc::{Float, Integer, NamedType, SwitchingType, Type, Value};
use crate::text::{cat2, cat3, cat4, cat5, decimal, signed_text};

verus! {

/// A value as C text: the decimal form of a number, or the name.
pub open spec fn value_text(v: Value) -> Seq<char> {
    match v {
        Value::Number(n) => decimal(n as int),
        Value::Identifier(id) => id@,
    }
}

pub fn value(v: &Value) -> (text: String)
    ensures
        text@ == value_text(*v),
{
    match v {
        Value::Number(n) => signed_text(*n),
        Value::Identifier(id) => id.clone(),
    }
}

/// The characters of an optional string.
pub open spec fn opt_text(s: Option<String>) -> Option<Seq<char>> {
    match s {
        Some(s) => Some(s@),
        None => None,
    }
}

/// The two parts of a C type as characters.
pub open spec fn ctype_text(tp: (String, Option<String>)) -> (Seq<char>, Option<Seq<char>>) {
    (tp.0@, opt_text(tp.1))
}

/// A type name before the pointer marks gathered so far.
pub open spec fn prefixed(marks: Option<Seq<char>>, name: Seq<char>) -> Seq<char> {
    match marks {
        Some(rest) => name + rest,
        None => name,
    }
}

fn append_or_new(tp: Option<String>, new: &str) -> (text: String)
    ensures
        text@ == prefixed(opt_text(tp), new@),
{
    match tp {
        Some(rest) => cat2(new, rest.as_str()),
        None => String::from_str(new),
    }
}

/// Whether a type can be written in C behind the pointer marks gathered
/// so far: no quadruple float stands in it, and the type without values
/// stands only behind a pointer mark.
pub open spec fn printable_under(tp: Type, marked: bool) -> bool
    decreases tp,
{
    match tp {
        Type::Void => marked,
        Type::Float(Float::Quadruple) => false,
        Type::Pointer(inner) => printable_under(*inner, true),
        Type::Array(inner, _) => printable_under(*inner, marked),
        Type::VArray(inner, _) => *inner == Type::String || printable_under(*inner, false),
        _ => true,
    }
}

/// Whether a type can be written in C: no quadruple float stands in it,
/// and the type without values is only pointed to.
pub open spec fn printable(tp: Type) -> bool {
    printable_under(tp, false)
}

fn is_printable_under(tp: &Type, marked: bool) -> (ok: bool)
    ensures
        ok == printable_under(*tp, marked),
    decreases *tp,
{
    match tp {
        Type::Void => marked,
        Type::Float(float) => match float {
            Float::Quadruple => false,
            _ => true,
        },
        Type::Pointer(inner) => is_printable_under(inner, true),
        Type::Array(inner, _) => is_printable_under(inner, marked),
        Type::VArray(inner, _) => {
            let inner: &Type = inner;
            match inner {
                Type::String => true,
                _ => is_printable_under(inner, false),
            }
        },
        _ => true,
    }
}

/// Decides whether a type can be written in C.
pub fn is_printable(tp: &Type) -> (ok: bool)
    ensures
        ok == printable(*tp),
{
    is_printable_under(tp, false)
}

/// A C type in one piece: what stands before the declared name, then the
/// array bounds that stand behind it.
pub open spec fn whole_type(tp: (Seq<char>, Option<Seq<char>>)) -> Seq<char> {
    tp.0 + match tp.1 {
        Some(bounds) => bounds,
        None => ""@,
    }
}

/// The C form of a type, given the pointer marks and the array bounds that
/// the types around it gave: the text before a declared name, and the array
/// bounds behind it if there are any. An outer pointer puts its `*` first,
/// an outer array its bound first.
pub open spec fn full_type(tp: Type, marks: Option<Seq<char>>, bounds: Option<Seq<char>>) -> (
    Seq<char>,
    Option<Seq<char>>,
)
    decreases tp,
{
    match tp {
        Type::Void => match marks {
            Some(rest) => ("void"@ + rest, bounds),
            None => arbitrary(),
        },
        Type::Integer(Integer::Integer) => (prefixed(marks, "s32"@), bounds),
        Type::Integer(Integer::Hyper) => (prefixed(marks, "s64"@), bounds),
        Type::Unsigned(Integer::Integer) => (prefixed(marks, "u32"@), bounds),
        Type::Unsigned(Integer::Hyper) => (prefixed(marks, "u64"@), bounds),
        Type::Float(Float::Single) => (prefixed(marks, "float"@), bounds),
        Type::Float(Float::Double) => (prefixed(marks, "double"@), bounds),
        Type::Float(Float::Quadruple) => arbitrary(),
        Type::Boolean => (prefixed(marks, "bool"@), bounds),
        Type::String => (prefixed(marks, "char"@), bounds),
        Type::Opaque => (prefixed(marks, "char"@), bounds),
        Type::Pointer(inner) => full_type(
            *inner,
            Some(
                match marks {
                    Some(rest) => "*"@ + rest,
                    None => "*"@,
                },
            ),
            bounds,
        ),
        Type::Array(inner, size) => full_type(
            *inner,
            marks,
            Some(
                match bounds {
                    Some(rest) => rest + "["@ + value_text(size) + "]"@,
                    None => "["@ + value_text(size) + "]"@,
                },
            ),
        ),
        Type::VArray(inner, _) => match *inner {
            Type::String => (prefixed(marks, "string_t"@), bounds),
            _ => (prefixed(marks, "vla("@ + whole_type(full_type(*inner, None, None)) + ")"@), bounds),
        },
        Type::Named(NamedType::Typedef(name)) => (prefixed(marks, name@), bounds),
        Type::Named(NamedType::Enum(name)) => (prefixed(marks, "enum "@ + name@), bounds),
        Type::Named(NamedType::Struct(name)) => (prefixed(marks, "struct "@ + name@), bounds),
        Type::Named(NamedType::Union(name)) => (prefixed(marks, "struct "@ + name@), bounds),
    }
}

fn inner_fulltype(tp: &Type, buf: (Option<String>, Option<String>)) -> (ctype: (String, Option<String>))
    requires
        printable_under(*tp, buf.0 is Some),
    ensures
        ctype_text(ctype) == full_type(*tp, opt_text(buf.0), opt_text(buf.1)),
    decreases *tp, 0nat,
{
    match tp {
        Type::Void => match buf.0 {
            Some(rest) => (cat2("void", rest.as_str()), buf.1),
            None => (String::new(), buf.1),
        },
        Type::Integer(integer) => match integer {
            Integer::Integer => (append_or_new(buf.0, "s32"), buf.1),
            Integer::Hyper => (append_or_new(buf.0, "s64"), buf.1),
        },
        Type::Unsigned(integer) => match integer {
            Integer::Integer => (append_or_new(buf.0, "u32"), buf.1),
            Integer::Hyper => (append_or_new(buf.0, "u64"), buf.1),
        },
        Type::Float(float) => match float {
            Float::Single => (append_or_new(buf.0, "float"), buf.1),
            Float::Double => (append_or_new(buf.0, "double"), buf.1),
            Float::Quadruple => {
                proof {
                    assert(false);
                }
                (String::new(), None)
            },
        },
        Type::Boolean => (append_or_new(buf.0, "bool"), buf.1),
        Type::String => (append_or_new(buf.0, "char"), buf.1),
        Type::Opaque => (append_or_new(buf.0, "char"), buf.1),
        Type::Pointer(inner) => {
            let inner: &Type = inner;
            let marks = match buf.0 {
                Some(rest) => cat2("*", rest.as_str()),
                None => String::from_str("*"),
            };
            inner_fulltype(inner, (Some(marks), buf.1))
        },
        Type::Array(inner, size) => {
            let inner: &Type = inner;
            let size = value(size);
            let bounds = match buf.1 {
                Some(rest) => cat4(rest.as_str(), "[", size.as_str(), "]"),
                None => cat3("[", size.as_str(), "]"),
            };
            inner_fulltype(inner, (buf.0, Some(bounds)))
        },
        Type::VArray(inner, _) => {
            let inner: &Type = inner;
            match inner {
                Type::String => (append_or_new(buf.0, "string_t"), buf.1),
                _ => {
                    let element = typename(&fulltype(inner));
                    let name = cat3("vla(", element.as_str(), ")");
                    (append_or_new(buf.0, name.as_str()), buf.1)
                },
            }
        },
        Type::Named(named) => match named {
            NamedType::Typedef(name) => (append_or_new(buf.0, name.as_str()), buf.1),
            NamedType::Enum(name) => {
                let name = cat2("enum ", name.as_str());
                (append_or_new(buf.0, name.as_str()), buf.1)
            },
            NamedType::Struct(name) => {
                let name = cat2("struct ", name.as_str());
                (append_or_new(buf.0, name.as_str()), buf.1)
            },
            NamedType::Union(name) => {
                let name = cat2("struct ", name.as_str());
                (append_or_new(buf.0, name.as_str()), buf.1)
            },
        },
    }
}

pub fn fulltype(tp: &Type) -> (ctype: (String, Option<String>))
    requires
        printable(*tp),
    ensures
        ctype_text(ctype) == full_type(*tp, None, None),
    decreases *tp, 1nat,
{
    inner_fulltype(tp, (None, None))
}

/// The declaration of `name` with a C type.
pub open spec fn declaration_text(name: Seq<char>, tp: (Seq<char>, Option<Seq<char>>)) -> Seq<char> {
    match tp.1 {
        Some(bounds) => tp.0 + " "@ + name + bounds,
        None => tp.0 + " "@ + name,
    }
}

pub fn declaration(name: &str, tp: &(String, Option<String>)) -> (text: String)
    ensures
        text@ == declaration_text(name@, ctype_text(*tp)),
{
    match &tp.1 {
        Some(bounds) => cat4(tp.0.as_str(), " ", name, bounds.as_str()),
        None => cat3(tp.0.as_str(), " ", name),
    }
}

/// The declaration of `name` as a pointer to a C type.
pub open spec fn pointer_declaration_text(name: Seq<char>, tp: (Seq<char>, Option<Seq<char>>)) -> Seq<
    char,
> {
    match tp.1 {
        Some(bounds) => tp.0 + " (*"@ + name + ")"@ + bounds,
        None => tp.0 + "* "@ + name,
    }
}

pub fn pointer_declaration(name: &str, tp: &(String, Option<String>)) -> (text: String)
    ensures
        text@ == pointer_declaration_text(name@, ctype_text(*tp)),
{
    match &tp.1 {
        Some(bounds) => cat5(tp.0.as_str(), " (*", name, ")", bounds.as_str()),
        None => cat3(tp.0.as_str(), "* ", name),
    }
}

pub fn typename(tp: &(String, Option<String>)) -> (text: String)
    ensures
        text@ == whole_type(ctype_text(*tp)),
{
    match &tp.1 {
        Some(bounds) => cat2(tp.0.as_str(), bounds.as_str()),
        None => cat2(tp.0.as_str(), ""),
    }
}

/// The declaration of the discriminant `name` of a union.
pub open spec fn switching_text(name: Seq<char>, tp: SwitchingType) -> Seq<char> {
    match tp {
        SwitchingType::Integer(Integer::Integer) => "s32 "@ + name,
        SwitchingType::Integer(Integer::Hyper) => "s64 "@ + name,
        SwitchingType::Unsigned(Integer::Integer) => "u32 "@ + name,
        SwitchingType::Unsigned(Integer::Hyper) => "u64 "@ + name,
        SwitchingType::Enum(ename) => "enum "@ + ename@ + " "@ + name,
    }
}

pub fn switching_declaraion(name: &str, tp: &SwitchingType) -> (text: String)
    ensures
        text@ == switching_text(name@, *tp),
{
    match tp {
        SwitchingType::Integer(integer) => match integer {
            Integer::Integer => cat2("s32 ", name),
            Integer::Hyper => cat2("s64 ", name),
        },
        SwitchingType::Unsigned(integer) => match integer {
            Integer::Integer => cat2("u32 ", name),
            Integer::Hyper => cat2("u64 ", name),
        },
        SwitchingType::Enum(ename) => cat4("enum ", ename.as_str(), " ", name),
    }
}

} // verus!
