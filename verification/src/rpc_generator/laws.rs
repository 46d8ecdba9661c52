//! What holds of every run of the walk over types: it only adds lines.

use vstd::prelude::*;
use crate::rpc::{NamedType, Type, Value, struct_fields, union_arms};
use crate::rpc_generator::file::Sink;
use crate::rpc_generator::handle::{Tables, lookup};
use crate::rpc_generator::types::asc::{full_type, value_text};
use crate::rpc_generator::types::{
    arm_member, based, bound_text, checked, decode_arms, decode_fields, decode_within, deeper,
    dynamic_within, element, encode_arms, encode_fields, encode_within, member, pointee,
    release_arms, release_fields, release_within, scalar, switch_type,
};

verus! {

/// Whether a sink has grown out of another: it is open if the other was,
/// and the lines of the other are its first lines.
pub open spec fn extends(before: Sink, after: Sink) -> bool {
    &&& after.open == before.open
    &&& after.lines.len() >= before.lines.len()
    &&& forall|i: int| 0 <= i < before.lines.len() ==> after.lines[i] == before.lines[i]
}

/// A checked call only adds lines.
pub proof fn checked_extends(s: Sink, ind: Seq<char>, rc: Seq<char>, call: Seq<char>)
    ensures
        extends(s, checked(s, ind, rc, call)),
{
}

/// A block with a checked call only adds lines.
pub proof fn scalar_extends(s: Sink, ind: Seq<char>, rc: Seq<char>, call: Seq<char>)
    ensures
        extends(s, scalar(s, ind, rc, call)),
{
}

/// The code that reads a datum is written behind the lines that the file
/// holds, which stay as they are.
pub proof fn decode_extends(
    s: Sink,
    tables: Tables,
    tp: Type,
    access: Seq<char>,
    rc: Seq<char>,
    ind: Seq<char>,
    depth: nat,
)
    ensures
        extends(s, decode_within(s, tables, tp, access, rc, ind, depth)),
    decreases depth, 0nat, tp.height(),
{
    match tp {
        Type::Pointer(inner) => {
            let s1 = checked(
                s.put(ind + "{"@).put(ind + "    int _rc = 0;"@).put(ind + "    u32 size = 0;"@),
                deeper(ind),
                rc,
                "xdr_stream_decode_u32(xdr, &size)"@,
            );
            let s2 = s1.put(ind + "    if (0 == "@ + rc + " && 1 < size) {"@).put(
                ind + "        "@ + rc + " = -EMSGSIZE;"@,
            ).put(ind + "    } else if (0 == "@ + rc + " && 1 == size) {"@).put(
                ind + "        "@ + access + " = kmalloc(sizeof("@
                    + crate::rpc_generator::types::asc::whole_type(
                    full_type(*inner, None, None),
                ) + "), GFP_KERNEL);"@,
            ).put(ind + "        if (NULL == "@ + access + ") {"@).put(
                ind + "            "@ + rc + " = -ENOMEM;"@,
            ).put(ind + "        } else {"@);
            decode_extends(
                s2,
                tables,
                *inner,
                pointee(access),
                rc,
                deeper(
                    deeper(deeper(ind)),
                ),
                depth,
            );
        },
        Type::Array(inner, size) => {
            if *inner != Type::Opaque {
                decode_extends(
                    s.put(
                        ind + "for (size_t i = 0; 0 == "@ + rc + " && "@
                            + value_text(size) + " > i; i++) {"@,
                    ),
                    tables,
                    *inner,
                    element(access),
                    rc,
                    deeper(ind),
                    depth,
                );
            }
        },
        Type::VArray(inner, size) => {
            if *inner != Type::Opaque && *inner != Type::String {
                let third = deeper(
                    deeper(deeper(ind)),
                );
                let s1 = checked(
                    s.put(ind + "{"@).put(ind + "    int _rc = 0;"@),
                    deeper(ind),
                    rc,
                    "xdr_stream_decode_u32(xdr, &("@ + access + ").size)"@,
                );
                let s2 = s1.put(
                    ind + "    if (0 == "@ + rc + " && "@ + bound_text(size)
                        + " < ("@ + access + ").size) {"@,
                ).put(ind + "        "@ + rc + " = -EMSGSIZE;"@).put(
                    ind + "    } else if (0 == "@ + rc + " && 0 != ("@ + access + ").size) {"@,
                ).put(
                    ind + "        ("@ + access + ").data = kmalloc(sizeof("@
                        + crate::rpc_generator::types::asc::whole_type(
                        full_type(*inner, None, None),
                    ) + ") * ("@ + access + ").size, GFP_KERNEL);"@,
                ).put(ind + "        if (NULL == ("@ + access + ").data) {"@).put(
                    ind + "            "@ + rc + " = -ENOMEM;"@,
                ).put(ind + "        } else {"@);
                decode_extends(
                    based(
                        s2,
                        third,
                        access,
                        full_type(*inner, None, None),
                    ).put(
                        ind + "            for (size_t i = 0; 0 == "@ + rc + " && ("@ + access
                            + ").size > i; i++) {"@,
                    ),
                    tables,
                    *inner,
                    "base[i]"@,
                    rc,
                    deeper(third),
                    depth,
                );
            }
        },
        Type::Named(NamedType::Typedef(name)) => {
            match lookup(tables.typedefs, name@) {
                Some(def) if depth > 0 => {
                    decode_extends(s, tables, def, access, rc, ind, (depth - 1) as nat);
                },
                _ => {},
            }
        },
        Type::Named(NamedType::Struct(name)) => {
            match lookup(tables.structs, name@) {
                Some(st) if depth > 0 => {
                    decode_fields_extend(
                        s.put(ind + "{ // struct "@ + name@),
                        tables,
                        struct_fields(st),
                        struct_fields(st).len(),
                        access,
                        rc,
                        deeper(ind),
                        (depth - 1) as nat,
                    );
                },
                _ => {},
            }
        },
        Type::Named(NamedType::Union(name)) => {
            match lookup(tables.unions, name@) {
                Some(un) if depth > 0 => {
                    let s1 = decode_within(
                        s.put(ind + "{ // union "@ + name@),
                        tables,
                        switch_type(un.switch_type),
                        member(access, un.value@),
                        rc,
                        deeper(ind),
                        (depth - 1) as nat,
                    );
                    decode_extends(
                        s.put(ind + "{ // union "@ + name@),
                        tables,
                        switch_type(un.switch_type),
                        member(access, un.value@),
                        rc,
                        deeper(ind),
                        (depth - 1) as nat,
                    );
                    let s2 = decode_arms(
                        s1.put(ind + "    switch (("@ + access + ")."@ + un.value@ + ") {"@),
                        tables,
                        union_arms(un.arms),
                        union_arms(un.arms).len(),
                        name@,
                        access,
                        rc,
                        ind,
                        (depth - 1) as nat,
                    );
                    decode_arms_extend(
                        s1.put(ind + "    switch (("@ + access + ")."@ + un.value@ + ") {"@),
                        tables,
                        union_arms(un.arms),
                        union_arms(un.arms).len(),
                        name@,
                        access,
                        rc,
                        ind,
                        (depth - 1) as nat,
                    );
                    match un.default {
                        Some((field, tp)) => {
                            decode_extends(
                                s2.put(ind + "    default:"@),
                                tables,
                                tp,
                                arm_member(access, name@, field@),
                                rc,
                                deeper(
                                    deeper(ind),
                                ),
                                (depth - 1) as nat,
                            );
                        },
                        None => {},
                    }
                },
                _ => {},
            }
        },
        _ => {},
    }
}

/// The code that reads the fields of a structure only adds lines.
pub proof fn decode_fields_extend(
    s: Sink,
    tables: Tables,
    fields: Seq<(String, Type)>,
    n: nat,
    access: Seq<char>,
    rc: Seq<char>,
    ind: Seq<char>,
    depth: nat,
)
    ensures
        extends(s, decode_fields(s, tables, fields, n, access, rc, ind, depth)),
    decreases depth, 1nat, n,
{
    if !(n == 0 || n > fields.len()) {
        decode_fields_extend(s, tables, fields, (n - 1) as nat, access, rc, ind, depth);
        decode_extends(
            decode_fields(s, tables, fields, (n - 1) as nat, access, rc, ind, depth),
            tables,
            fields[n - 1].1,
            member(access, fields[n - 1].0@),
            rc,
            ind,
            depth,
        );
    }
}

/// The code that reads the arms of a union only adds lines.
pub proof fn decode_arms_extend(
    s: Sink,
    tables: Tables,
    arms: Seq<(Value, (String, Type))>,
    n: nat,
    name: Seq<char>,
    access: Seq<char>,
    rc: Seq<char>,
    ind: Seq<char>,
    depth: nat,
)
    ensures
        extends(s, decode_arms(s, tables, arms, n, name, access, rc, ind, depth)),
    decreases depth, 1nat, n,
{
    if !(n == 0 || n > arms.len()) {
        decode_arms_extend(s, tables, arms, (n - 1) as nat, name, access, rc, ind, depth);
        decode_extends(
            decode_arms(s, tables, arms, (n - 1) as nat, name, access, rc, ind, depth).put(
                ind + "    case ("@ + value_text(arms[n - 1].0) + "):"@,
            ),
            tables,
            arms[n - 1].1.1,
            arm_member(access, name, arms[n - 1].1.0@),
            rc,
            deeper(deeper(ind)),
            depth,
        );
    }
}

/// The code that writes a datum is written behind the lines that the
/// file holds, which stay as they are.
pub proof fn encode_extends(
    s: Sink,
    tables: Tables,
    tp: Type,
    access: Seq<char>,
    rc: Seq<char>,
    ind: Seq<char>,
    depth: nat,
)
    ensures
        extends(s, encode_within(s, tables, tp, access, rc, ind, depth)),
    decreases depth, 0nat, tp.height(),
{
    match tp {
        Type::Pointer(inner) => {
            let s1 = checked(
                s.put(ind + "{"@).put(ind + "    int _rc = 0;"@).put(
                    ind + "    u32 size = (NULL == "@ + access + ") ? 0 : 1;"@,
                ),
                deeper(ind),
                rc,
                "xdr_stream_encode_u32(xdr, size)"@,
            );
            encode_extends(
                s1.put(ind + "    if (0 == "@ + rc + " && 1 == size) {"@),
                tables,
                *inner,
                pointee(access),
                rc,
                deeper(deeper(ind)),
                depth,
            );
        },
        Type::Array(inner, size) => {
            if *inner != Type::Opaque {
                let s1 = s.put(ind + "{"@).put(
                    ind + "    if (0 == "@ + rc + " && NULL == "@ + access + ") {"@,
                ).put(ind + "        "@ + rc + " = -EINVAL;"@).put(ind + "    }"@);
                encode_extends(
                    s1.put(
                        ind + "    for (size_t i = 0; 0 == "@ + rc + " && "@ + value_text(size)
                            + " > i; i++) {"@,
                    ),
                    tables,
                    *inner,
                    element(access),
                    rc,
                    deeper(deeper(ind)),
                    depth,
                );
            }
        },
        Type::VArray(inner, size) => {
            if *inner != Type::Opaque && *inner != Type::String {
                let s1 = s.put(ind + "{"@).put(ind + "    int _rc = 0;"@).put(
                    ind + "    if (0 == "@ + rc,
                ).put(ind + "        && 0 != ("@ + access + ").size"@).put(
                    ind + "        && NULL == ("@ + access + ").data) {"@,
                ).put(ind + "        "@ + rc + " = -EINVAL;"@).put(ind + "    }"@).put(
                    ind + "    if (0 == "@ + rc + " && "@ + bound_text(size) + " < ("@ + access
                        + ").size) {"@,
                ).put(ind + "        "@ + rc + " = -EMSGSIZE;"@).put(ind + "    }"@);
                let s2 = checked(
                    s1,
                    deeper(ind),
                    rc,
                    "xdr_stream_encode_u32(xdr, ("@ + access + ").size)"@,
                );
                let s3 = s2.put(ind + "    if (0 == "@ + rc + " && 0 != ("@ + access + ").size) {"@);
                encode_extends(
                    based(s3, deeper(deeper(ind)), access, full_type(*inner, None, None)).put(
                        ind + "        for (size_t i = 0; 0 == "@ + rc + " && ("@ + access
                            + ").size > i; i++) {"@,
                    ),
                    tables,
                    *inner,
                    "base[i]"@,
                    rc,
                    deeper(deeper(deeper(ind))),
                    depth,
                );
            }
        },
        Type::Named(NamedType::Typedef(name)) => {
            match lookup(tables.typedefs, name@) {
                Some(def) if depth > 0 => {
                    encode_extends(s, tables, def, access, rc, ind, (depth - 1) as nat);
                },
                _ => {},
            }
        },
        Type::Named(NamedType::Struct(name)) => {
            match lookup(tables.structs, name@) {
                Some(st) if depth > 0 => {
                    encode_fields_extend(
                        s.put(ind + "{ // struct "@ + name@),
                        tables,
                        struct_fields(st),
                        struct_fields(st).len(),
                        access,
                        rc,
                        deeper(ind),
                        (depth - 1) as nat,
                    );
                },
                _ => {},
            }
        },
        Type::Named(NamedType::Union(name)) => {
            match lookup(tables.unions, name@) {
                Some(un) if depth > 0 => {
                    let s0 = s.put(ind + "{ // union "@ + name@);
                    let s1 = encode_within(
                        s0,
                        tables,
                        switch_type(un.switch_type),
                        member(access, un.value@),
                        rc,
                        deeper(ind),
                        (depth - 1) as nat,
                    );
                    encode_extends(
                        s0,
                        tables,
                        switch_type(un.switch_type),
                        member(access, un.value@),
                        rc,
                        deeper(ind),
                        (depth - 1) as nat,
                    );
                    let s2 = encode_arms(
                        s1.put(ind + "    switch (("@ + access + ")."@ + un.value@ + ") {"@),
                        tables,
                        union_arms(un.arms),
                        union_arms(un.arms).len(),
                        name@,
                        access,
                        rc,
                        ind,
                        (depth - 1) as nat,
                    );
                    encode_arms_extend(
                        s1.put(ind + "    switch (("@ + access + ")."@ + un.value@ + ") {"@),
                        tables,
                        union_arms(un.arms),
                        union_arms(un.arms).len(),
                        name@,
                        access,
                        rc,
                        ind,
                        (depth - 1) as nat,
                    );
                    match un.default {
                        Some((field, tp)) => {
                            encode_extends(
                                s2.put(ind + "    default:"@),
                                tables,
                                tp,
                                arm_member(access, name@, field@),
                                rc,
                                deeper(deeper(ind)),
                                (depth - 1) as nat,
                            );
                        },
                        None => {},
                    }
                },
                _ => {},
            }
        },
        _ => {},
    }
}

/// The code that writes the fields of a structure only adds lines.
pub proof fn encode_fields_extend(
    s: Sink,
    tables: Tables,
    fields: Seq<(String, Type)>,
    n: nat,
    access: Seq<char>,
    rc: Seq<char>,
    ind: Seq<char>,
    depth: nat,
)
    ensures
        extends(s, encode_fields(s, tables, fields, n, access, rc, ind, depth)),
    decreases depth, 1nat, n,
{
    if !(n == 0 || n > fields.len()) {
        encode_fields_extend(s, tables, fields, (n - 1) as nat, access, rc, ind, depth);
        encode_extends(
            encode_fields(s, tables, fields, (n - 1) as nat, access, rc, ind, depth),
            tables,
            fields[n - 1].1,
            member(access, fields[n - 1].0@),
            rc,
            ind,
            depth,
        );
    }
}

/// The code that writes the arms of a union only adds lines.
pub proof fn encode_arms_extend(
    s: Sink,
    tables: Tables,
    arms: Seq<(Value, (String, Type))>,
    n: nat,
    name: Seq<char>,
    access: Seq<char>,
    rc: Seq<char>,
    ind: Seq<char>,
    depth: nat,
)
    ensures
        extends(s, encode_arms(s, tables, arms, n, name, access, rc, ind, depth)),
    decreases depth, 1nat, n,
{
    if !(n == 0 || n > arms.len()) {
        encode_arms_extend(s, tables, arms, (n - 1) as nat, name, access, rc, ind, depth);
        encode_extends(
            encode_arms(s, tables, arms, (n - 1) as nat, name, access, rc, ind, depth).put(
                ind + "    case ("@ + value_text(arms[n - 1].0) + "):"@,
            ),
            tables,
            arms[n - 1].1.1,
            arm_member(access, name, arms[n - 1].1.0@),
            rc,
            deeper(deeper(ind)),
            depth,
        );
    }
}

/// The code that frees a datum is written behind the lines that the file
/// holds, which stay as they are.
pub proof fn release_extends(s: Sink, tables: Tables, tp: Type, access: Seq<char>, ind: Seq<char>, depth: nat)
    ensures
        extends(s, release_within(s, tables, tp, access, ind, depth)),
    decreases depth, 0nat, tp.height(),
{
    if dynamic_within(tables, tp, depth) {
        match tp {
            Type::Pointer(inner) => {
                release_extends(
                    s.put(ind + "if (NULL != "@ + access + ") {"@),
                    tables,
                    *inner,
                    pointee(access),
                    deeper(ind),
                    depth,
                );
            },
            Type::Array(inner, size) => {
                release_extends(
                    s.put(ind + "for (size_t i = 0; "@ + value_text(size) + " > i; i++) {"@),
                    tables,
                    *inner,
                    element(access),
                    deeper(ind),
                    depth,
                );
            },
            Type::VArray(inner, _) => {
                let s1 = s.put(ind + "if (NULL != ("@ + access + ").data) {"@);
                if dynamic_within(tables, *inner, depth) {
                    release_extends(
                        based(s1, deeper(ind), access, full_type(*inner, None, None)).put(
                            ind + "    for (size_t i = 0; ("@ + access + ").size > i; i++) {"@,
                        ),
                        tables,
                        *inner,
                        "base[i]"@,
                        deeper(deeper(ind)),
                        depth,
                    );
                }
            },
            Type::Named(NamedType::Struct(name)) => {
                match lookup(tables.structs, name@) {
                    Some(st) if depth > 0 => {
                        release_fields_extend(
                            s.put(ind + "{ // struct "@ + name@),
                            tables,
                            struct_fields(st),
                            struct_fields(st).len(),
                            access,
                            deeper(ind),
                            (depth - 1) as nat,
                        );
                    },
                    _ => {},
                }
            },
            Type::Named(NamedType::Union(name)) => {
                match lookup(tables.unions, name@) {
                    Some(un) if depth > 0 => {
                        let s1 = s.put(ind + "{ // union "@ + name@).put(
                            ind + "    switch (("@ + access + ")."@ + un.value@ + ") {"@,
                        );
                        let s2 = release_arms(
                            s1,
                            tables,
                            union_arms(un.arms),
                            union_arms(un.arms).len(),
                            name@,
                            access,
                            ind,
                            (depth - 1) as nat,
                        );
                        release_arms_extend(
                            s1,
                            tables,
                            union_arms(un.arms),
                            union_arms(un.arms).len(),
                            name@,
                            access,
                            ind,
                            (depth - 1) as nat,
                        );
                        match un.default {
                            Some((field, tp)) => {
                                release_extends(
                                    s2.put(ind + "    default:"@),
                                    tables,
                                    tp,
                                    arm_member(access, name@, field@),
                                    deeper(deeper(ind)),
                                    (depth - 1) as nat,
                                );
                            },
                            None => {},
                        }
                    },
                    _ => {},
                }
            },
            Type::Named(NamedType::Typedef(name)) => {
                match lookup(tables.typedefs, name@) {
                    Some(def) if depth > 0 => {
                        release_extends(s, tables, def, access, ind, (depth - 1) as nat);
                    },
                    _ => {},
                }
            },
            _ => {},
        }
    }
}

/// The code that frees the fields of a structure only adds lines.
pub proof fn release_fields_extend(
    s: Sink,
    tables: Tables,
    fields: Seq<(String, Type)>,
    n: nat,
    access: Seq<char>,
    ind: Seq<char>,
    depth: nat,
)
    ensures
        extends(s, release_fields(s, tables, fields, n, access, ind, depth)),
    decreases depth, 1nat, n,
{
    if !(n == 0 || n > fields.len()) {
        release_fields_extend(s, tables, fields, (n - 1) as nat, access, ind, depth);
        release_extends(
            release_fields(s, tables, fields, (n - 1) as nat, access, ind, depth),
            tables,
            fields[n - 1].1,
            member(access, fields[n - 1].0@),
            ind,
            depth,
        );
    }
}

/// The code that frees the arms of a union only adds lines.
pub proof fn release_arms_extend(
    s: Sink,
    tables: Tables,
    arms: Seq<(Value, (String, Type))>,
    n: nat,
    name: Seq<char>,
    access: Seq<char>,
    ind: Seq<char>,
    depth: nat,
)
    ensures
        extends(s, release_arms(s, tables, arms, n, name, access, ind, depth)),
    decreases depth, 1nat, n,
{
    if !(n == 0 || n > arms.len()) {
        release_arms_extend(s, tables, arms, (n - 1) as nat, name, access, ind, depth);
        release_extends(
            release_arms(s, tables, arms, (n - 1) as nat, name, access, ind, depth).put(
                ind + "    case ("@ + value_text(arms[n - 1].0) + "):"@,
            ),
            tables,
            arms[n - 1].1.1,
            arm_member(access, name, arms[n - 1].1.0@),
            deeper(deeper(ind)),
            depth,
        );
    }
}

/// A type that holds no dynamic memory has no release: the file stays as
/// it is.
pub proof fn release_of_static(s: Sink, tables: Tables, tp: Type, access: Seq<char>, ind: Seq<char>, depth: nat)
    requires
        !dynamic_within(tables, tp, depth),
    ensures
        release_within(s, tables, tp, access, ind, depth) == s,
{
}

/// What is written to a file that is finished is dropped.
pub proof fn closed_sink_keeps(s: Sink, line: Seq<char>)
    requires
        !s.open,
    ensures
        s.put(line) == s,
{
}

} // verus!
