//! How the definitions of a module are declared in C.

use vstd::prelude::*;
use crate::rpc::{Enum, Struct, Type, Union, Value, struct_fields, struct_field, struct_len, union_arms, arms_entry, arms_len};
use crate::rpc_generator::file::{File, Sink, emit, emit3, emit4, emit5};
use crate::rpc_generator::types::asc;

verus! {

/// The sink with the definition of a constant.
pub open spec fn constant_lines(s: Sink, name: Seq<char>, value: Value) -> Sink {
    s.put("#define "@ + name + " "@ + asc::value_text(value))
}

pub fn print_constant<F: File>(file: &mut F, name: &str, value: &Value)
    ensures
        final(file).sink() == constant_lines(old(file).sink(), name@, *value),
{
    emit4(file, "#define ", name, " ", asc::value(value).as_str());
}

/// The sink with the declaration of a typedef.
pub open spec fn typedef_lines(s: Sink, name: Seq<char>, tp: Type) -> Sink {
    s.put("typedef "@ + asc::declaration_text(name, asc::full_type(tp, None, None)) + ";"@)
}

pub fn print_typedef<F: File>(file: &mut F, name: &str, tp: &Type)
    requires
        asc::printable(*tp),
    ensures
        final(file).sink() == typedef_lines(old(file).sink(), name@, *tp),
{
    let text = asc::declaration(name, &asc::fulltype(tp));
    emit3(file, "typedef ", text.as_str(), ";");
}

/// Whether every field can be written in C.
pub open spec fn fields_printable(fields: Seq<(String, Type)>) -> bool {
    forall|i: int| 0 <= i < fields.len() ==> asc::printable((#[trigger] fields[i]).1)
}

/// The sink with the declarations of the first `n` fields, each behind
/// the indentation `ind`.
pub open spec fn field_lines(s: Sink, fields: Seq<(String, Type)>, n: nat, ind: Seq<char>) -> Sink
    decreases n,
{
    if n == 0 || n > fields.len() {
        s
    } else {
        field_lines(s, fields, (n - 1) as nat, ind).put(
            ind + asc::declaration_text(fields[n - 1].0@, asc::full_type(fields[n - 1].1, None, None))
                + ";"@,
        )
    }
}

/// The sink with the declaration of a structure: its fields in order.
pub open spec fn struct_lines(s: Sink, name: Seq<char>, st: Struct) -> Sink {
    field_lines(
        s.put("struct "@ + name + " {"@),
        struct_fields(st),
        struct_fields(st).len(),
        "    "@,
    ).put("};"@)
}

pub fn print_struct<F: File>(file: &mut F, name: &str, st: &Struct)
    requires
        fields_printable(struct_fields(*st)),
    ensures
        final(file).sink() == struct_lines(old(file).sink(), name@, *st),
{
    emit3(file, "struct ", name, " {");
    let ghost start = file.sink();
    let n = struct_len(st);
    let mut i: usize = 0;
    while i < n
        invariant
            n == struct_fields(*st).len(),
            i <= n,
            fields_printable(struct_fields(*st)),
            file.sink() == field_lines(start, struct_fields(*st), i as nat, "    "@),
        decreases n - i,
    {
        match struct_field(st, i) {
            Some((field, tp)) => {
                assert(asc::printable(struct_fields(*st)[i as int].1));
                let text = asc::declaration(field.as_str(), &asc::fulltype(tp));
                emit3(file, "    ", text.as_str(), ";");
            },
            None => {},
        }
        i = i + 1;
    }
    emit(file, "};");
}

/// Whether an arm of a union can be declared: its type can be written in
/// C, or it holds nothing.
pub open spec fn arm_printable(tp: Type) -> bool {
    tp == Type::Void || asc::printable(tp)
}

/// Whether every arm of the union, the default too, can be declared.
pub open spec fn union_printable(un: Union) -> bool {
    &&& forall|i: int|
        0 <= i < union_arms(un.arms).len() ==> arm_printable((#[trigger] union_arms(un.arms)[i]).1.1)
    &&& match un.default {
        Some((_, tp)) => arm_printable(tp),
        None => true,
    }
}

/// The sink with the declaration of an arm of a union: a member of the C
/// union, or nothing for an arm that holds nothing.
pub open spec fn arm_line(s: Sink, name: Seq<char>, tp: Type) -> Sink {
    if tp == Type::Void {
        s
    } else {
        s.put("        "@ + asc::declaration_text(name, asc::full_type(tp, None, None)) + ";"@)
    }
}

fn print_arm<F: File>(file: &mut F, name: &str, tp: &Type)
    requires
        arm_printable(*tp),
    ensures
        final(file).sink() == arm_line(old(file).sink(), name@, *tp),
{
    if !tp.is_void() {
        let text = asc::declaration(name, &asc::fulltype(tp));
        emit3(file, "        ", text.as_str(), ";");
    }
}

/// The sink with the declarations of the first `n` arms.
pub open spec fn arm_lines(s: Sink, arms: Seq<(Value, (String, Type))>, n: nat) -> Sink
    decreases n,
{
    if n == 0 || n > arms.len() {
        s
    } else {
        arm_line(arm_lines(s, arms, (n - 1) as nat), arms[n - 1].1.0@, arms[n - 1].1.1)
    }
}

/// The sink with the declaration of a union: a structure of the
/// discriminant and of a C union of the arms in order, the default last;
/// an arm that holds nothing declares nothing.
pub open spec fn union_lines(s: Sink, name: Seq<char>, un: Union) -> Sink {
    let s = arm_lines(
        s.put("struct "@ + name + " {"@).put(
            "    "@ + asc::switching_text(un.value@, un.switch_type) + ";"@,
        ).put("    union {"@),
        union_arms(un.arms),
        union_arms(un.arms).len(),
    );
    let s = match un.default {
        Some((field, tp)) => arm_line(s, field@, tp),
        None => s,
    };
    s.put("    } "@ + name + "_u;"@).put("};"@)
}

pub fn print_union<F: File>(file: &mut F, name: &str, un: &Union)
    requires
        union_printable(*un),
    ensures
        final(file).sink() == union_lines(old(file).sink(), name@, *un),
{
    emit3(file, "struct ", name, " {");
    let tag = asc::switching_declaraion(un.value.as_str(), &un.switch_type);
    emit3(file, "    ", tag.as_str(), ";");
    emit(file, "    union {");
    let ghost start = file.sink();
    let n = arms_len(&un.arms);
    let mut i: usize = 0;
    while i < n
        invariant
            n == union_arms(un.arms).len(),
            i <= n,
            union_printable(*un),
            file.sink() == arm_lines(start, union_arms(un.arms), i as nat),
        decreases n - i,
    {
        match arms_entry(&un.arms, i) {
            Some((_, arm)) => {
                assert(arm_printable(union_arms(un.arms)[i as int].1.1));
                print_arm(file, arm.0.as_str(), &arm.1);
            },
            None => {},
        }
        i = i + 1;
    }
    match &un.default {
        Some(arm) => {
            print_arm(file, arm.0.as_str(), &arm.1);
        },
        None => {},
    }
    emit3(file, "    } ", name, "_u;");
    emit(file, "};");
}

/// The sink with the first `n` tags of an enum, each with its value if it
/// has one.
pub open spec fn tag_lines(s: Sink, tags: Seq<(String, Option<Value>)>, n: nat) -> Sink
    decreases n,
{
    if n == 0 || n > tags.len() {
        s
    } else {
        tag_lines(s, tags, (n - 1) as nat).put(
            match tags[n - 1].1 {
                Some(v) => "    "@ + tags[n - 1].0@ + " = "@ + asc::value_text(v) + ","@,
                None => "    "@ + tags[n - 1].0@ + ","@,
            },
        )
    }
}

/// The sink with the declaration of an enum: its tags in order.
pub open spec fn enum_lines(s: Sink, name: Seq<char>, en: Enum) -> Sink {
    tag_lines(s.put("enum "@ + name + " {"@), en@, en@.len()).put("};"@)
}

pub fn print_enum<F: File>(file: &mut F, name: &str, en: &Enum)
    ensures
        final(file).sink() == enum_lines(old(file).sink(), name@, *en),
{
    emit3(file, "enum ", name, " {");
    let ghost start = file.sink();
    let n = en.len();
    let mut i: usize = 0;
    while i < n
        invariant
            n == en@.len(),
            i <= n,
            file.sink() == tag_lines(start, en@, i as nat),
        decreases n - i,
    {
        match &en[i].1 {
            Some(v) => emit5(file, "    ", en[i].0.as_str(), " = ", asc::value(v).as_str(), ","),
            None => emit3(file, "    ", en[i].0.as_str(), ","),
        }
        i = i + 1;
    }
    emit(file, "};");
}

} // verus!
