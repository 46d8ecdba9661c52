use indexmap::IndexMap;
use krpcgen::rpc::{
    Definition, Float, Integer, NamedType, Procedure, Program, Struct, SwitchingType, Type, Union,
    Value, Version,
};
use krpcgen::rpc_generator::config::{path, port, threads, vla_limit, Config};
use krpcgen::rpc_generator::file::{
    join_path, ChainPrinter, File, FnPrinter, HFile, IteratorPrinter, PlainFile, Printable,
};
use krpcgen::rpc_generator::handle::Handle;
use krpcgen::rpc_generator::misc::{unwrap_value, value_number};
use krpcgen::rpc_generator::program::{client, server};
use krpcgen::rpc_generator::types::asc;
use krpcgen::rpc_generator::types::printables::{
    print_constant, print_enum, print_struct, print_typedef, print_union,
};
use krpcgen::rpc_generator::types::{
    generate_argument_wrap, generate_argument_wrap_struct, generate_decode_statement,
    generate_encode_statement, generate_release_statement, generate_xdr_size, misc_constants,
    uses_dynamic_memory, Constants,
};
use krpcgen::rpc_generator::{check, generate, Error};

fn int32() -> Type {
    Type::Integer(Integer::Integer)
}

fn named_struct(name: &str) -> Type {
    Type::Named(NamedType::Struct(name.to_string()))
}

fn sample_struct() -> Struct {
    let mut st: Struct = IndexMap::new();
    st.insert("x".to_string(), int32());
    st.insert("y".to_string(), Type::VArray(Box::new(int32()), Some(Value::Number(10))));
    st
}

fn sample_handle() -> Handle {
    Handle::from_iter(vec![
        Definition::Const("LIMIT".to_string(), Value::Number(8)),
        Definition::Struct("S".to_string(), sample_struct()),
        Definition::Typedef("word".to_string(), Type::Unsigned(Integer::Hyper)),
    ])
}

fn lines(file: PlainFile) -> Vec<String> {
    file.result().1
}

#[test]
fn size_of_struct_with_bounded_array() {
    let handle = sample_handle();
    assert_eq!(
        "sizeof(s32)+sizeof(u32)+10*(sizeof(s32))",
        generate_xdr_size(&handle, &named_struct("S"))
    );
}

#[test]
fn size_of_scalars_and_wrappers() {
    let handle = sample_handle();
    assert_eq!("0", generate_xdr_size(&handle, &Type::Void));
    assert_eq!("sizeof(u64)", generate_xdr_size(&handle, &Type::Named(NamedType::Typedef("word".to_string()))));
    assert_eq!("sizeof(u32)+sizeof(bool)", generate_xdr_size(&handle, &Type::Pointer(Box::new(Type::Boolean))));
    assert_eq!(
        "LIMIT*(sizeof(double))",
        generate_xdr_size(
            &handle,
            &Type::Array(Box::new(Type::Float(Float::Double)), Value::Identifier("LIMIT".to_string()))
        )
    );
    assert_eq!(
        "sizeof(u32)+VLA_LIMIT*(sizeof(char))",
        generate_xdr_size(&handle, &Type::VArray(Box::new(Type::String), None))
    );
    assert_eq!(
        "sizeof(enum color)",
        generate_xdr_size(&handle, &Type::Named(NamedType::Enum("color".to_string())))
    );
}

#[test]
fn size_of_union_takes_the_greatest_arm() {
    let mut arms = IndexMap::new();
    arms.insert(Value::Number(1), ("a".to_string(), int32()));
    arms.insert(Value::Number(2), ("b".to_string(), Type::Integer(Integer::Hyper)));
    let un = Union {
        value: "tag".to_string(),
        switch_type: SwitchingType::Unsigned(Integer::Integer),
        arms,
        default: Some(("c".to_string(), Type::Boolean)),
    };
    let handle = Handle::from_iter(vec![Definition::Union("U".to_string(), un)]);
    assert_eq!(
        "sizeof(u32)+STATIC_MAX((STATIC_MAX((sizeof(s32)),(sizeof(s64)))),(sizeof(bool)))",
        generate_xdr_size(&handle, &Type::Named(NamedType::Union("U".to_string())))
    );
}

#[test]
fn dynamic_memory_is_found_through_names() {
    let handle = sample_handle();
    assert!(uses_dynamic_memory(&handle, &named_struct("S")));
    assert!(!uses_dynamic_memory(&handle, &Type::Named(NamedType::Typedef("word".to_string()))));
    assert!(uses_dynamic_memory(&handle, &Type::Pointer(Box::new(int32()))));
    assert!(!uses_dynamic_memory(&handle, &Type::Array(Box::new(int32()), Value::Number(3))));
    assert!(uses_dynamic_memory(
        &handle,
        &Type::Array(Box::new(Type::VArray(Box::new(int32()), None)), Value::Number(3))
    ));
    assert!(!uses_dynamic_memory(&handle, &Type::String));
}

#[test]
fn support_is_decided_by_the_handle() {
    let handle = sample_handle();
    assert!(handle.supports(&named_struct("S")));
    assert!(!handle.supports(&named_struct("T")));
    assert!(!handle.supports(&Type::Float(Float::Quadruple)));
    assert!(!handle.supports(&Type::String));
    assert!(handle.supports(&Type::VArray(Box::new(Type::String), None)));
    assert!(!handle.supports(&Type::Array(Box::new(Type::String), Value::Number(2))));
    assert!(!handle.supports(&Type::Pointer(Box::new(Type::Void))));
    assert!(!handle.supports(&Type::VArray(Box::new(Type::Void), None)));
    assert!(handle.supports(&Type::Void));
    assert!(handle.supports(&Type::Array(Box::new(Type::Opaque), Value::Number(2))));
}

#[test]
fn a_structure_that_holds_itself_behind_a_pointer_has_no_wire_code() {
    let mut st: Struct = IndexMap::new();
    st.insert("op".to_string(), int32());
    st.insert("next".to_string(), Type::Pointer(Box::new(named_struct("BAKERY"))));
    let handle = Handle::from_iter(vec![Definition::Struct("BAKERY".to_string(), st)]);
    assert!(!handle.supports(&named_struct("BAKERY")));
    assert!(uses_dynamic_memory(&handle, &named_struct("BAKERY")));
}

#[test]
fn printers_print_in_order() {
    let mut file = PlainFile::new("f".to_string());
    let late = FnPrinter::from(|| ChainPrinter("made", "late".to_string()));
    "first".print(&mut file);
    ChainPrinter(Some("second"), None::<&str>).print(&mut file);
    late.print(&mut file);
    IteratorPrinter::from(vec!["a", "b", "c"]).print(&mut file);
    assert_eq!(vec!["first", "second", "made", "late", "a", "b", "c"], lines(file));
}

#[test]
fn decode_of_an_integer() {
    let handle = sample_handle();
    let mut file = PlainFile::new("f".to_string());
    generate_decode_statement(&handle, &mut file, &int32(), "x", None, Some(4));
    assert_eq!(
        vec![
            "    {",
            "        int _rc = 0;",
            "        if (0 == rc",
            "            && 0 > (_rc = xdr_stream_decode_u32(xdr, &(x)))) {",
            "            rc = _rc;",
            "        }",
            "    }",
        ],
        lines(file)
    );
}

#[test]
fn decode_of_a_bounded_array_of_strings() {
    let handle = sample_handle();
    let mut file = PlainFile::new("f".to_string());
    let tp = Type::VArray(Box::new(Type::String), Some(Value::Number(16)));
    generate_decode_statement(&handle, &mut file, &tp, "arg->name", Some("err"), None);
    assert_eq!(
        vec![
            "{",
            "    int _rc = 0;",
            "    if (0 == err",
            "        && 0 > (_rc = xdr_stream_decode_u32(xdr, &(arg->name).size))) {",
            "        err = _rc;",
            "    }",
            "    if (0 == err && 16 < (arg->name).size) {",
            "        err = -EMSGSIZE;",
            "    } else if (0 == err && 0 != (arg->name).size) {",
            "        (arg->name).data = kmalloc(sizeof(char) * (arg->name).size, GFP_KERNEL);",
            "        if (NULL == (arg->name).data) {",
            "            err = -ENOMEM;",
            "        } else {",
            "            int _rc = 0;",
            "            if (0 == err",
            "                && 0 > (_rc = xdr_stream_decode_string(xdr, (arg->name).data, (arg->name).size))) {",
            "                err = _rc;",
            "            }",
            "        }",
            "    } else {",
            "        (arg->name).data = NULL;",
            "    }",
            "}",
        ],
        lines(file)
    );
}

#[test]
fn decode_of_a_structure_visits_each_field() {
    let mut st: Struct = IndexMap::new();
    st.insert("a".to_string(), Type::Boolean);
    st.insert("b".to_string(), Type::Named(NamedType::Enum("color".to_string())));
    let handle = Handle::from_iter(vec![Definition::Struct("P".to_string(), st)]);
    let mut file = PlainFile::new("f".to_string());
    generate_decode_statement(&handle, &mut file, &named_struct("P"), "*res", Some("rc"), Some(0));
    assert_eq!(
        vec![
            "{ // struct P",
            "    {",
            "        int _rc = 0;",
            "        if (0 == rc",
            "            && 0 > (_rc = xdr_stream_decode_bool(xdr, &((*res).a)))) {",
            "            rc = _rc;",
            "        }",
            "    }",
            "    {",
            "        int _rc = 0;",
            "        s32 num = 0;",
            "        if (0 == rc",
            "            && 0 > (_rc = xdr_stream_decode_u32(xdr, &num))) {",
            "            rc = _rc;",
            "        }",
            "        if (0 == rc) {",
            "            (*res).b = num;",
            "        }",
            "    }",
            "}",
        ],
        lines(file)
    );
}

#[test]
fn encode_of_a_pointer() {
    let handle = sample_handle();
    let mut file = PlainFile::new("f".to_string());
    generate_encode_statement(&handle, &mut file, &Type::Pointer(Box::new(int32())), "p", None, None);
    assert_eq!(
        vec![
            "{",
            "    int _rc = 0;",
            "    u32 size = (NULL == p) ? 0 : 1;",
            "    if (0 == rc",
            "        && 0 > (_rc = xdr_stream_encode_u32(xdr, size))) {",
            "        rc = _rc;",
            "    }",
            "    if (0 == rc && 1 == size) {",
            "        {",
            "            int _rc = 0;",
            "            if (0 == rc",
            "                && 0 > (_rc = xdr_stream_encode_u32(xdr, *(p)))) {",
            "                rc = _rc;",
            "            }",
            "        }",
            "    }",
            "}",
        ],
        lines(file)
    );
}

#[test]
fn encode_of_an_opaque_array_and_of_a_union() {
    let mut arms = IndexMap::new();
    arms.insert(Value::Identifier("ONE".to_string()), ("raw".to_string(), Type::Array(Box::new(Type::Opaque), Value::Number(4))));
    let un = Union {
        value: "kind".to_string(),
        switch_type: SwitchingType::Enum("kinds".to_string()),
        arms,
        default: Some((String::new(), Type::Void)),
    };
    let handle = Handle::from_iter(vec![Definition::Union("U".to_string(), un)]);
    let mut file = PlainFile::new("f".to_string());
    generate_encode_statement(
        &handle,
        &mut file,
        &Type::Named(NamedType::Union("U".to_string())),
        "u",
        None,
        None,
    );
    assert_eq!(
        vec![
            "{ // union U",
            "    {",
            "        int _rc = 0;",
            "        s32 num = (u).kind;",
            "        if (0 == rc",
            "            && 0 > (_rc = xdr_stream_encode_u32(xdr, num))) {",
            "            rc = _rc;",
            "        }",
            "    }",
            "    switch ((u).kind) {",
            "    case (ONE):",
            "        {",
            "            if (0 == rc && NULL == (u).U_u.raw) {",
            "                rc = -EINVAL;",
            "            }",
            "            int _rc = 0;",
            "            if (0 == rc",
            "                && 0 > (_rc = xdr_stream_encode_opaque(xdr, (u).U_u.raw, 4))) {",
            "                rc = _rc;",
            "            }",
            "        }",
            "        break;",
            "    default:",
            "        break;",
            "    }",
            "}",
        ],
        lines(file)
    );
}

#[test]
fn release_of_an_array_of_pointers() {
    let handle = sample_handle();
    let mut file = PlainFile::new("f".to_string());
    let tp = Type::VArray(Box::new(Type::Pointer(Box::new(int32()))), None);
    generate_release_statement(&handle, &mut file, &tp, "v", None);
    assert_eq!(
        vec![
            "if (NULL != (v).data) {",
            "    s32** _base = (s32** )((v).data);",
            "    s32** base = _base;",
            "    for (size_t i = 0; (v).size > i; i++) {",
            "        if (NULL != base[i]) {",
            "            kfree(base[i]);",
            "            base[i] = NULL;",
            "        }",
            "    }",
            "    kfree((v).data);",
            "    (v).data = NULL;",
            "    (v).size = 0;",
            "}",
        ],
        lines(file)
    );
}

#[test]
fn release_of_what_holds_no_dynamic_memory_writes_nothing() {
    let handle = sample_handle();
    let mut file = PlainFile::new("f".to_string());
    generate_release_statement(&handle, &mut file, &int32(), "x", Some(4));
    generate_release_statement(
        &handle,
        &mut file,
        &Type::Array(Box::new(Type::Boolean), Value::Number(2)),
        "x",
        Some(4),
    );
    assert!(lines(file).is_empty());
}

#[test]
fn types_in_c() {
    let pointer_array = Type::Array(Box::new(Type::Pointer(Box::new(int32()))), Value::Number(3));
    let ctype = asc::fulltype(&pointer_array);
    assert_eq!(("s32*".to_string(), Some("[3]".to_string())), ctype);
    assert_eq!("s32* a[3]", asc::declaration("a", &ctype));
    assert_eq!("s32* (*a)[3]", asc::pointer_declaration("a", &ctype));
    assert_eq!("s32*[3]", asc::typename(&ctype));

    let nested = Type::Array(
        Box::new(Type::Array(Box::new(Type::Boolean), Value::Number(2))),
        Value::Identifier("N".to_string()),
    );
    assert_eq!(("bool".to_string(), Some("[N][2]".to_string())), asc::fulltype(&nested));

    assert_eq!(("string_t".to_string(), None), asc::fulltype(&Type::VArray(Box::new(Type::String), None)));
    assert_eq!(("vla(s64)".to_string(), None), asc::fulltype(&Type::VArray(Box::new(Type::Integer(Integer::Hyper)), None)));
    assert_eq!(("struct S".to_string(), None), asc::fulltype(&named_struct("S")));
    assert_eq!(("struct U".to_string(), None), asc::fulltype(&Type::Named(NamedType::Union("U".to_string()))));
    assert_eq!(("enum E".to_string(), None), asc::fulltype(&Type::Named(NamedType::Enum("E".to_string()))));
    assert_eq!(("word".to_string(), None), asc::fulltype(&Type::Named(NamedType::Typedef("word".to_string()))));
    assert_eq!(("char**".to_string(), None), asc::fulltype(&Type::Pointer(Box::new(Type::Pointer(Box::new(Type::Opaque))))));
    assert_eq!(("void*".to_string(), None), asc::fulltype(&Type::Pointer(Box::new(Type::Void))));
    assert!(!asc::is_printable(&Type::Void));
    assert!(!asc::is_printable(&Type::Array(Box::new(Type::Void), Value::Number(2))));
    assert!(asc::is_printable(&Type::Pointer(Box::new(Type::Void))));
    assert!(!asc::is_printable(&Type::VArray(Box::new(Type::Void), None)));
    assert_eq!(("float".to_string(), None), asc::fulltype(&Type::Float(Float::Single)));
    assert_eq!("u32* x", asc::pointer_declaration("x", &asc::fulltype(&Type::Unsigned(Integer::Integer))));
    assert!(!asc::is_printable(&Type::Pointer(Box::new(Type::Float(Float::Quadruple)))));
    assert!(asc::is_printable(&pointer_array));
}

#[test]
fn values_and_discriminants_in_c() {
    assert_eq!("-5", asc::value(&Value::Number(-5)));
    assert_eq!("0", asc::value(&Value::Number(0)));
    assert_eq!("-9223372036854775808", asc::value(&Value::Number(i64::MIN)));
    assert_eq!("9223372036854775807", asc::value(&Value::Number(i64::MAX)));
    assert_eq!("MAX", asc::value(&Value::Identifier("MAX".to_string())));
    assert_eq!("s32 v", asc::switching_declaraion("v", &SwitchingType::Integer(Integer::Integer)));
    assert_eq!("s64 v", asc::switching_declaraion("v", &SwitchingType::Integer(Integer::Hyper)));
    assert_eq!("u32 v", asc::switching_declaraion("v", &SwitchingType::Unsigned(Integer::Integer)));
    assert_eq!("u64 v", asc::switching_declaraion("v", &SwitchingType::Unsigned(Integer::Hyper)));
    assert_eq!("enum e v", asc::switching_declaraion("v", &SwitchingType::Enum("e".to_string())));
}

#[test]
fn declarations_of_definitions() {
    let mut file = PlainFile::new("f".to_string());
    print_constant(&mut file, "A", &Value::Number(7));
    print_typedef(&mut file, "list", &Type::VArray(Box::new(int32()), None));
    print_struct(&mut file, "S", &sample_struct());
    print_enum(
        &mut file,
        "E",
        &vec![
            ("A".to_string(), None),
            ("B".to_string(), Some(Value::Number(3))),
            ("C".to_string(), Some(Value::Identifier("A".to_string()))),
        ],
    );
    let mut arms = IndexMap::new();
    arms.insert(Value::Number(1), ("values".to_string(), Type::Array(Box::new(Type::Unsigned(Integer::Integer)), Value::Number(10))));
    let un = Union {
        value: "value".to_string(),
        switch_type: SwitchingType::Enum("cases".to_string()),
        arms,
        default: Some(("rest".to_string(), Type::Boolean)),
    };
    print_union(&mut file, "test", &un);
    assert_eq!(
        vec![
            "#define A 7",
            "typedef vla(s32) list;",
            "struct S {",
            "    s32 x;",
            "    vla(s32) y;",
            "};",
            "enum E {",
            "    A,",
            "    B = 3,",
            "    C = A,",
            "};",
            "struct test {",
            "    enum cases value;",
            "    union {",
            "        u32 values[10];",
            "        bool rest;",
            "    } test_u;",
            "};",
        ],
        lines(file)
    );
}

#[test]
fn arguments_are_wrapped_from_two_on() {
    let handle = sample_handle();
    let one = Procedure { name: "P".to_string(), return_type: Type::Void, arguments: vec![int32()] };
    let two = Procedure {
        name: "Q".to_string(),
        return_type: Type::Void,
        arguments: vec![int32(), Type::Pointer(Box::new(Type::Boolean))],
    };
    let mut file = PlainFile::new("f".to_string());
    assert!(!generate_argument_wrap(&handle, &mut file, &one));
    assert!(generate_argument_wrap(&handle, &mut file, &two));
    assert_eq!(
        vec!["struct Q_argument_wrap {", "    s32 arg0;", "    bool* arg1;", "};"],
        lines(file)
    );
    let (name, st) = generate_argument_wrap_struct(&handle, &two);
    assert_eq!("Q_argument_wrap", name);
    assert_eq!(2, st.len());
    assert_eq!(Some((&"arg0".to_string(), &int32())), st.get_index(0));
    assert_eq!(Some(&Type::Pointer(Box::new(Type::Boolean))), st.get("arg1"));
}

#[test]
fn wrapping_names_every_argument_apart() {
    let handle = sample_handle();
    let many = Procedure {
        name: "M".to_string(),
        return_type: Type::Void,
        arguments: (0..12).map(|_| int32()).collect(),
    };
    let (_, st) = generate_argument_wrap_struct(&handle, &many);
    assert_eq!(12, st.len());
    assert!(st.contains_key("arg10"));
    assert!(st.contains_key("arg11"));
}

#[test]
fn header_files_are_guarded() {
    let mut file = HFile::new("out/servers/constants.h".to_string()).unwrap();
    "#define A 1".print(&mut file);
    file.finish();
    file.add_line("dropped".to_string());
    file.finish();
    let (path, lines) = file.result();
    assert_eq!("out/servers/constants.h", path);
    assert_eq!(
        vec!["#ifndef CONSTANTS_H", "#define CONSTANTS_H", "", "#define A 1", "", "#endif"],
        lines
    );
}

#[test]
fn paths_are_joined() {
    assert_eq!("./constants.h", join_path(".", "constants.h"));
    assert_eq!("out/servers", join_path("out/", "servers"));
    assert_eq!("servers", join_path("", "servers"));
    assert_eq!("/abs", join_path("out", "/abs"));
}

#[test]
fn configuration_defaults() {
    assert_eq!(".", path(&None));
    assert_eq!(1024, vla_limit(&None));
    assert_eq!(0, port(&None));
    assert_eq!(1, threads(&None));
    let mut cfg = Config::new();
    assert_eq!(".", path(&Some(Config::new())));
    cfg.path = Some("out".to_string());
    cfg.vla_limit = Some(7);
    cfg.port = Some(111);
    cfg.threads = Some(4);
    let cfg = Some(cfg);
    assert_eq!("out", path(&cfg));
    assert_eq!(7, vla_limit(&cfg));
    assert_eq!(111, port(&cfg));
    assert_eq!(4, threads(&cfg));
    let mut file = PlainFile::new("f".to_string());
    misc_constants(&mut file, Constants::new(&cfg));
    assert_eq!(vec!["#define VLA_LIMIT 7"], lines(file));
}

#[test]
fn values_lead_to_numbers() {
    let handle = Handle::from_iter(vec![
        Definition::Const("A".to_string(), Value::Number(5)),
        Definition::Const("B".to_string(), Value::Identifier("A".to_string())),
        Definition::Const("LOOP".to_string(), Value::Identifier("LOOP".to_string())),
    ]);
    assert_eq!(5, unwrap_value(&handle, &Value::Identifier("B".to_string())));
    assert_eq!(-3, unwrap_value(&handle, &Value::Number(-3)));
    assert_eq!(None, value_number(&handle, &Value::Identifier("C".to_string())));
    assert_eq!(None, value_number(&handle, &Value::Identifier("LOOP".to_string())));
}

#[test]
fn a_later_definition_takes_the_place_of_an_earlier_one() {
    let handle = Handle::from_iter(vec![
        Definition::Const("A".to_string(), Value::Number(1)),
        Definition::Const("B".to_string(), Value::Number(2)),
        Definition::Const("A".to_string(), Value::Number(3)),
    ]);
    assert_eq!(2, handle.constants.len());
    assert_eq!(Some((&"A".to_string(), &Value::Number(3))), handle.constants.get_index(0));
    assert_eq!(Some((&"B".to_string(), &Value::Number(2))), handle.constants.get_index(1));
    assert_eq!(None, handle.constants.get_index(2));
    assert_eq!(Some(&Value::Number(3)), handle.constants.get("A"));
}

#[test]
fn a_later_program_takes_the_number_of_an_earlier_one() {
    let handle = Handle::from_iter(vec![
        Definition::Program(Value::Number(7), Program { name: "FIRST".to_string(), versions: IndexMap::new() }),
        Definition::Program(Value::Number(8), Program { name: "OTHER".to_string(), versions: IndexMap::new() }),
        Definition::Program(Value::Number(7), Program { name: "SECOND".to_string(), versions: IndexMap::new() }),
    ]);
    assert_eq!(2, handle.programs.len());
    let names: Vec<(&Value, &str)> = handle.programs.iter().map(|(n, p)| (n, p.name.as_str())).collect();
    assert_eq!(vec![(&Value::Number(7), "SECOND"), (&Value::Number(8), "OTHER")], names);
}

#[test]
fn the_types_of_a_handle_are_found_by_name() {
    let mut point = Struct::new();
    point.insert("x".to_string(), int32());
    let handle = Handle::from_iter(vec![
        Definition::Typedef("count".to_string(), int32()),
        Definition::Struct("point".to_string(), point),
        Definition::Enum("colour".to_string(), vec![("RED".to_string(), None)]),
    ]);
    assert_eq!(Some(&int32()), handle.typedefs.get("count"));
    assert_eq!(1, handle.structs.len());
    assert_eq!(1, handle.enums.len());
    assert!(handle.unions.is_empty());
    assert!(handle.supports(&Type::Named(NamedType::Typedef("count".to_string()))));
    assert!(handle.supports(&Type::Named(NamedType::Struct("point".to_string()))));
    assert!(!handle.supports(&Type::Named(NamedType::Struct("count".to_string()))));
    assert!(!handle.supports(&Type::Named(NamedType::Union("point".to_string()))));
}

fn ping_definitions() -> Vec<Definition> {
    let mut pingback = IndexMap::new();
    pingback.insert(
        Value::Number(0),
        Procedure { name: "PINGPROC_NULL".to_string(), return_type: Type::Void, arguments: vec![] },
    );
    pingback.insert(
        Value::Number(1),
        Procedure { name: "PINGPROC_PINGBACK".to_string(), return_type: int32(), arguments: vec![] },
    );
    let mut orig = IndexMap::new();
    orig.insert(
        Value::Number(0),
        Procedure { name: "PINGPROC_NULL".to_string(), return_type: Type::Void, arguments: vec![] },
    );
    let mut versions = IndexMap::new();
    versions.insert(Value::Number(2), Version { name: "PING_VERS_PINGBACK".to_string(), procedures: pingback });
    versions.insert(Value::Number(1), Version { name: "PING_VERS_ORIG".to_string(), procedures: orig });
    vec![
        Definition::Program(Value::Number(200000), Program { name: "PING_PROG".to_string(), versions }),
        Definition::Const("PING_VERS".to_string(), Value::Number(2)),
    ]
}

#[test]
fn the_sources_of_ping() {
    let tree = generate(ping_definitions(), None).unwrap();
    let files: Vec<(String, Vec<String>)> = tree.files.into_iter().map(|f| f.result()).collect();
    let paths: Vec<&str> = files.iter().map(|f| f.0.as_str()).collect();
    assert_eq!(
        vec![
            "./constants.h",
            "./types.h",
            "./servers/common.h",
            "./servers/common.c",
            "./servers/PING_PROG/constants.h",
            "./servers/PING_PROG/authentication.h",
            "./servers/PING_PROG/authentication.c",
            "./servers/PING_PROG/program.c",
            "./servers/PING_PROG/PING_VERS_PINGBACK/constants.h",
            "./servers/PING_PROG/PING_VERS_PINGBACK/version.h",
            "./servers/PING_PROG/PING_VERS_PINGBACK/version.c",
            "./servers/PING_PROG/PING_VERS_PINGBACK/procedures.h",
            "./servers/PING_PROG/PING_VERS_PINGBACK/procedure_xdr.c",
            "./servers/PING_PROG/PING_VERS_PINGBACK/procedure_handlers.c",
            "./servers/PING_PROG/PING_VERS_ORIG/constants.h",
            "./servers/PING_PROG/PING_VERS_ORIG/version.h",
            "./servers/PING_PROG/PING_VERS_ORIG/version.c",
            "./servers/PING_PROG/PING_VERS_ORIG/procedures.h",
            "./servers/PING_PROG/PING_VERS_ORIG/procedure_xdr.c",
            "./servers/PING_PROG/PING_VERS_ORIG/procedure_handlers.c",
            "./clients/client.h",
            "./clients/client.c",
            "./clients/PING_PROG/constants.h",
            "./clients/PING_PROG/authentication.h",
            "./clients/PING_PROG/authentication.c",
            "./clients/PING_PROG/program.c",
            "./clients/PING_PROG/PING_VERS_PINGBACK/constants.h",
            "./clients/PING_PROG/PING_VERS_PINGBACK/version.h",
            "./clients/PING_PROG/PING_VERS_PINGBACK/version.c",
            "./clients/PING_PROG/PING_VERS_PINGBACK/procedures.h",
            "./clients/PING_PROG/PING_VERS_PINGBACK/procedure_xdr.c",
            "./clients/PING_PROG/PING_VERS_PINGBACK/procedure_api.h",
            "./clients/PING_PROG/PING_VERS_PINGBACK/procedure_api.c",
            "./clients/PING_PROG/PING_VERS_ORIG/constants.h",
            "./clients/PING_PROG/PING_VERS_ORIG/version.h",
            "./clients/PING_PROG/PING_VERS_ORIG/version.c",
            "./clients/PING_PROG/PING_VERS_ORIG/procedures.h",
            "./clients/PING_PROG/PING_VERS_ORIG/procedure_xdr.c",
            "./clients/PING_PROG/PING_VERS_ORIG/procedure_api.h",
            "./clients/PING_PROG/PING_VERS_ORIG/procedure_api.c",
            "./Makefile",
        ],
        paths
    );
    assert_eq!(
        vec![
            "#ifndef CONSTANTS_H",
            "#define CONSTANTS_H",
            "",
            "#define VLA_LIMIT 1024",
            "",
            "#define PING_VERS 2",
            "",
            "#define PING_PROG 200000",
            "",
            "",
            "#endif",
        ],
        files[0].1
    );
    assert_eq!(
        vec![
            "KVER := $(shell uname -r)",
            "KDIR := /lib/modules/$(KVER)/build",
            "",
            "obj-m := PING_PROG_server.o PING_PROG_api.o",
            "",
            "PING_PROG_server-objs := \\",
            "    servers/PING_PROG/authentication.o \\",
            "    servers/PING_PROG/program.o \\",
            "    servers/PING_PROG/PING_VERS_PINGBACK/procedure_handlers.o \\",
            "    servers/PING_PROG/PING_VERS_PINGBACK/procedure_xdr.o \\",
            "    servers/PING_PROG/PING_VERS_PINGBACK/version.o \\",
            "    servers/PING_PROG/PING_VERS_ORIG/procedure_handlers.o \\",
            "    servers/PING_PROG/PING_VERS_ORIG/procedure_xdr.o \\",
            "    servers/PING_PROG/PING_VERS_ORIG/version.o \\",
            "    servers/common.o",
            "",
            "PING_PROG_api-objs := \\",
            "    clients/PING_PROG/authentication.o \\",
            "    clients/PING_PROG/program.o \\",
            "    clients/PING_PROG/PING_VERS_PINGBACK/procedure_api.o \\",
            "    clients/PING_PROG/PING_VERS_PINGBACK/procedure_xdr.o \\",
            "    clients/PING_PROG/PING_VERS_PINGBACK/version.o \\",
            "    clients/PING_PROG/PING_VERS_ORIG/procedure_api.o \\",
            "    clients/PING_PROG/PING_VERS_ORIG/procedure_xdr.o \\",
            "    clients/PING_PROG/PING_VERS_ORIG/version.o \\",
            "    clients/client.o",
            "",
            ".PHONY: build clean default",
            "",
            "default: build",
            "",
            "build:",
            "\tmake -C $(KDIR) M=$(shell pwd) modules",
            "",
            "clean:",
            "\tmake -C $(KDIR) M=$(shell pwd) clean",
        ],
        files[40].1
    );
    let server_version = &files[10].1;
    assert!(server_version.contains(&"    .vs_xdrsize = AUTH_HANDLE_SIZE+0,".to_string()));
    assert!(server_version.contains(&"        .pc_xdrressize = sizeof(s32),".to_string()));
    let server_program = &files[7].1;
    assert!(server_program.contains(&"    .pg_lovers = 1,".to_string()));
    assert!(server_program.contains(&"    .pg_hivers = 2,".to_string()));
    assert!(server_program.contains(&"#include \"PING_VERS_ORIG/version.h\"".to_string()));
    let client_api = &files[32].1;
    assert!(client_api.contains(&"PINGPROC_PINGBACK_result_t PING_PROG_PING_VERS_PINGBACK_PINGPROC_PINGBACK(void) {".to_string()));
    assert!(client_api.contains(&"            .rpc_resp = &res.value,".to_string()));
}

#[test]
fn what_stands_against_the_sources() {
    let quad = vec![Definition::Typedef("q".to_string(), Type::Float(Float::Quadruple))];
    assert_eq!(Err(Error::UnprintableType), generate(quad, None).map(|_| ()));

    let mut procedures = IndexMap::new();
    procedures.insert(
        Value::Number(1),
        Procedure { name: "P".to_string(), return_type: Type::String, arguments: vec![] },
    );
    let mut versions = IndexMap::new();
    versions.insert(Value::Number(1), Version { name: "V".to_string(), procedures });
    let bad = vec![Definition::Program(Value::Number(1), Program { name: "G".to_string(), versions })];
    assert_eq!(Err(Error::UnsupportedProcedure), generate(bad, None).map(|_| ()));

    let mut versions = IndexMap::new();
    versions.insert(
        Value::Identifier("TAG".to_string()),
        Version { name: "V".to_string(), procedures: IndexMap::new() },
    );
    let unnumbered = vec![Definition::Program(Value::Number(1), Program { name: "G".to_string(), versions })];
    assert_eq!(Err(Error::UnknownVersionNumber), generate(unnumbered, None).map(|_| ()));

    assert_eq!(None, check(&Handle::from_iter(ping_definitions())));
    assert_eq!(Err(Error::NoProgram), generate(vec![], None).map(|_| ()));
    let only_constants = vec![Definition::Const("A".to_string(), Value::Number(1))];
    assert_eq!(Err(Error::NoProgram), generate(only_constants, None).map(|_| ()));

    let bare = vec![Definition::Typedef("v".to_string(), Type::Void)];
    assert_eq!(Err(Error::UnprintableType), generate(bare, None).map(|_| ()));

    let mut procedures = IndexMap::new();
    procedures.insert(
        Value::Number(1),
        Procedure {
            name: "P".to_string(),
            return_type: Type::Void,
            arguments: vec![Type::Pointer(Box::new(Type::Void))],
        },
    );
    let mut versions = IndexMap::new();
    versions.insert(Value::Number(1), Version { name: "V".to_string(), procedures });
    let pointed = vec![Definition::Program(Value::Number(1), Program { name: "G".to_string(), versions })];
    assert_eq!(Err(Error::UnsupportedProcedure), generate(pointed, None).map(|_| ()));
}

#[test]
fn a_single_argument_is_never_wrapped() {
    let handle = sample_handle();
    let one = Procedure {
        name: "P".to_string(),
        return_type: Type::Void,
        arguments: vec![Type::Float(Float::Quadruple)],
    };
    let mut file = PlainFile::new("f".to_string());
    assert!(!generate_argument_wrap(&handle, &mut file, &one));
    assert!(lines(file).is_empty());
}

#[test]
fn release_is_owed_for_a_structure_that_points_to_itself() {
    let mut st: Struct = IndexMap::new();
    st.insert("op".to_string(), int32());
    st.insert("next".to_string(), Type::Pointer(Box::new(named_struct("BAKERY"))));
    let handle = Handle::from_iter(vec![Definition::Struct("BAKERY".to_string(), st)]);
    let procedure = Procedure {
        name: "P".to_string(),
        return_type: named_struct("BAKERY"),
        arguments: vec![],
    };
    assert!(server::procedure::procedure_need_release(&handle, &procedure));
    let other = Procedure {
        name: "Q".to_string(),
        return_type: Type::Void,
        arguments: vec![Type::VArray(Box::new(Type::Opaque), None)],
    };
    assert!(server::procedure::procedure_need_release(&handle, &other));
    let plain = Procedure { name: "R".to_string(), return_type: int32(), arguments: vec![] };
    assert!(!server::procedure::procedure_need_release(&handle, &plain));
}

#[test]
fn an_arm_that_holds_nothing_declares_nothing() {
    let mut arms = IndexMap::new();
    arms.insert(Value::Number(1), ("a".to_string(), int32()));
    arms.insert(Value::Number(2), (String::new(), Type::Void));
    let un = Union {
        value: "v".to_string(),
        switch_type: SwitchingType::Integer(Integer::Integer),
        arms,
        default: Some((String::new(), Type::Void)),
    };
    let mut file = PlainFile::new("f".to_string());
    print_union(&mut file, "U", &un);
    assert_eq!(
        vec!["struct U {", "    s32 v;", "    union {", "        s32 a;", "    } U_u;", "};"],
        lines(file)
    );
}

fn pointer_struct() -> Struct {
    let mut st: Struct = IndexMap::new();
    st.insert("f".to_string(), Type::Float(Float::Single));
    st.insert("p".to_string(), Type::Pointer(Box::new(Type::Integer(Integer::Hyper))));
    st
}

fn pointer_handle() -> Handle {
    let mut arms = IndexMap::new();
    arms.insert(Value::Number(1), ("s".to_string(), named_struct("S")));
    let un = Union {
        value: "v".to_string(),
        switch_type: SwitchingType::Integer(Integer::Hyper),
        arms,
        default: None,
    };
    Handle::from_iter(vec![
        Definition::Struct("S".to_string(), pointer_struct()),
        Definition::Union("U".to_string(), un),
        Definition::Typedef("T".to_string(), named_struct("S")),
    ])
}

#[test]
fn encode_of_an_unbounded_array() {
    let handle = sample_handle();
    let mut file = PlainFile::new("f".to_string());
    generate_encode_statement(&handle, &mut file, &Type::VArray(Box::new(int32()), None), "v", None, None);
    assert_eq!(
        vec![
            "{",
            "    int _rc = 0;",
            "    if (0 == rc",
            "        && 0 != (v).size",
            "        && NULL == (v).data) {",
            "        rc = -EINVAL;",
            "    }",
            "    if (0 == rc && VLA_LIMIT < (v).size) {",
            "        rc = -EMSGSIZE;",
            "    }",
            "    if (0 == rc",
            "        && 0 > (_rc = xdr_stream_encode_u32(xdr, (v).size))) {",
            "        rc = _rc;",
            "    }",
            "    if (0 == rc && 0 != (v).size) {",
            "        s32* _base = (s32* )((v).data);",
            "        s32* base = _base;",
            "        for (size_t i = 0; 0 == rc && (v).size > i; i++) {",
            "            {",
            "                int _rc = 0;",
            "                if (0 == rc",
            "                    && 0 > (_rc = xdr_stream_encode_u32(xdr, base[i]))) {",
            "                    rc = _rc;",
            "                }",
            "            }",
            "        }",
            "    }",
            "}",
        ],
        lines(file)
    );
}

#[test]
fn encode_of_a_string_and_of_a_float() {
    let handle = sample_handle();
    let mut file = PlainFile::new("f".to_string());
    generate_encode_statement(
        &handle,
        &mut file,
        &Type::VArray(Box::new(Type::String), Some(Value::Identifier("LIMIT".to_string()))),
        "s",
        None,
        Some(2),
    );
    generate_encode_statement(&handle, &mut file, &Type::Float(Float::Single), "x", None, None);
    generate_encode_statement(&handle, &mut file, &Type::Void, "x", None, None);
    assert_eq!(
        vec![
            "  {",
            "      int _rc = 0;",
            "      if (0 == rc",
            "          && 0 != (s).size",
            "          && NULL == (s).data) {",
            "          rc = -EINVAL;",
            "      }",
            "      if (0 == rc && LIMIT < (s).size) {",
            "          rc = -EMSGSIZE;",
            "      }",
            "      if (0 == rc",
            "          && 0 > (_rc = xdr_stream_encode_u32(xdr, (s).size))) {",
            "          rc = _rc;",
            "      }",
            "      if (0 == rc && 0 != (s).size) {",
            "          int _rc = 0;",
            "          if (0 == rc",
            "              && 0 > (_rc = xdr_stream_encode_opaque(xdr, (s).data, (s).size))) {",
            "              rc = _rc;",
            "          }",
            "      }",
            "  }",
            "{",
            "    int _rc = 0;",
            "    if (0 == rc",
            "        && 0 > (_rc = xdr_stream_encode_opaque(xdr, &(x), sizeof(float)))) {",
            "        rc = _rc;",
            "    }",
            "}",
        ],
        lines(file)
    );
}

#[test]
fn decode_of_an_array_and_of_a_pointer() {
    let handle = sample_handle();
    let mut file = PlainFile::new("f".to_string());
    generate_decode_statement(
        &handle,
        &mut file,
        &Type::Array(Box::new(Type::Unsigned(Integer::Hyper)), Value::Number(3)),
        "a",
        None,
        None,
    );
    generate_decode_statement(&handle, &mut file, &Type::Pointer(Box::new(Type::Float(Float::Double))), "p", None, None);
    assert_eq!(
        vec![
            "for (size_t i = 0; 0 == rc && 3 > i; i++) {",
            "    {",
            "        int _rc = 0;",
            "        if (0 == rc",
            "            && 0 > (_rc = xdr_stream_decode_u64(xdr, &((a)[i])))) {",
            "            rc = _rc;",
            "        }",
            "    }",
            "}",
            "{",
            "    int _rc = 0;",
            "    u32 size = 0;",
            "    if (0 == rc",
            "        && 0 > (_rc = xdr_stream_decode_u32(xdr, &size))) {",
            "        rc = _rc;",
            "    }",
            "    if (0 == rc && 1 < size) {",
            "        rc = -EMSGSIZE;",
            "    } else if (0 == rc && 1 == size) {",
            "        p = kmalloc(sizeof(double), GFP_KERNEL);",
            "        if (NULL == p) {",
            "            rc = -ENOMEM;",
            "        } else {",
            "            {",
            "                int _rc = 0;",
            "                if (0 == rc",
            "                    && 0 > (_rc = xdr_stream_decode_opaque(xdr, &(*(p)), sizeof(double)))) {",
            "                    rc = _rc;",
            "                }",
            "            }",
            "        }",
            "    } else {",
            "        p = NULL;",
            "    }",
            "}",
        ],
        lines(file)
    );
}

#[test]
fn decode_of_an_array_of_bytes_and_of_elements() {
    let handle = sample_handle();
    let mut file = PlainFile::new("f".to_string());
    generate_decode_statement(
        &handle,
        &mut file,
        &Type::Array(Box::new(Type::Opaque), Value::Number(8)),
        "raw",
        None,
        None,
    );
    generate_decode_statement(&handle, &mut file, &Type::VArray(Box::new(Type::Boolean), Some(Value::Number(2))), "v", None, None);
    assert_eq!(
        vec![
            "{",
            "    int _rc = 0;",
            "    if (0 == rc",
            "        && 0 > (_rc = xdr_stream_decode_opaque(xdr, raw, 8))) {",
            "        rc = _rc;",
            "    }",
            "}",
            "{",
            "    int _rc = 0;",
            "    if (0 == rc",
            "        && 0 > (_rc = xdr_stream_decode_u32(xdr, &(v).size))) {",
            "        rc = _rc;",
            "    }",
            "    if (0 == rc && 2 < (v).size) {",
            "        rc = -EMSGSIZE;",
            "    } else if (0 == rc && 0 != (v).size) {",
            "        (v).data = kmalloc(sizeof(bool) * (v).size, GFP_KERNEL);",
            "        if (NULL == (v).data) {",
            "            rc = -ENOMEM;",
            "        } else {",
            "            bool* _base = (bool* )((v).data);",
            "            bool* base = _base;",
            "            for (size_t i = 0; 0 == rc && (v).size > i; i++) {",
            "                {",
            "                    int _rc = 0;",
            "                    if (0 == rc",
            "                        && 0 > (_rc = xdr_stream_decode_bool(xdr, &(base[i])))) {",
            "                        rc = _rc;",
            "                    }",
            "                }",
            "            }",
            "        }",
            "    } else {",
            "        (v).data = NULL;",
            "    }",
            "}",
        ],
        lines(file)
    );
}

#[test]
fn release_through_names() {
    let handle = pointer_handle();
    let mut file = PlainFile::new("f".to_string());
    generate_release_statement(&handle, &mut file, &Type::Named(NamedType::Typedef("T".to_string())), "x", None);
    generate_release_statement(
        &handle,
        &mut file,
        &Type::Array(Box::new(Type::Pointer(Box::new(int32()))), Value::Number(2)),
        "a",
        None,
    );
    generate_release_statement(&handle, &mut file, &Type::Named(NamedType::Union("U".to_string())), "u", Some(4));
    assert_eq!(
        vec![
            "{ // struct S",
            "    if (NULL != (x).p) {",
            "        kfree((x).p);",
            "        (x).p = NULL;",
            "    }",
            "}",
            "for (size_t i = 0; 2 > i; i++) {",
            "    if (NULL != (a)[i]) {",
            "        kfree((a)[i]);",
            "        (a)[i] = NULL;",
            "    }",
            "}",
            "    { // union U",
            "        switch ((u).v) {",
            "        case (1):",
            "            { // struct S",
            "                if (NULL != ((u).U_u.s).p) {",
            "                    kfree(((u).U_u.s).p);",
            "                    ((u).U_u.s).p = NULL;",
            "                }",
            "            }",
            "            break;",
            "        }",
            "    }",
        ],
        lines(file)
    );
}

#[test]
fn procedures_of_a_server_and_of_a_client() {
    let handle = pointer_handle();
    let procedure = Procedure {
        name: "GET".to_string(),
        return_type: Type::Pointer(Box::new(int32())),
        arguments: vec![int32(), Type::Boolean],
    };
    let mut file = PlainFile::new("f".to_string());
    server::procedure::generate_procedure_declaration(&handle, &mut file, &procedure, "V1");
    client::procedure::generate_procedure_declaration(&handle, &mut file, &procedure, "V1");
    client::procedure::generate_procedure_api_definition(&handle, &mut file, &procedure, "V1", "PROG");
    assert!(client::procedure::generate_procedure_release_definition(&handle, &mut file, &procedure, "V1", "PROG"));
    server::procedure::generate_procedure_handler_declaration(&handle, &mut file, &procedure, "V1");
    assert!(server::procedure::procedure_need_release(&handle, &procedure));
    assert_eq!(
        vec![
            "    [GET] = {",
            "        .pc_func = V1_GET_handler,",
            "        .pc_decode = V1_GET_decode,",
            "        .pc_encode = V1_GET_encode,",
            "        .pc_argsize = sizeof(struct GET_argument_wrap),",
            "        .pc_argzero = sizeof(struct GET_argument_wrap),",
            "        .pc_release = V1_GET_release,",
            "        .pc_ressize = sizeof(s32*),",
            "        .pc_xdrressize = sizeof(u32)+sizeof(s32),",
            "        .pc_name = \"GET\",",
            "    },",
            "    [GET] = {",
            "        .p_proc = GET,",
            "        .p_encode = V1_GET_encode,",
            "        .p_decode = V1_GET_decode,",
            "        .p_arglen = AUTH_HANDLE_SIZE+sizeof(s32)+sizeof(bool),",
            "        .p_replen = sizeof(u32)+sizeof(s32),",
            "        .p_statidx = GET,",
            "        .p_name = \"GET\",",
            "    },",
            "typedef struct {",
            "    s32* value;",
            "    int error;",
            "} GET_result_t;",
            "",
            "GET_result_t PROG_V1_GET(s32 arg0, bool arg1);",
            "void release_result_PROG_V1_GET(s32** result);",
            "__be32 V1_GET_handler(struct svc_rqst *rqstp) {",
            "    s32** res = rqstp->rq_resp;",
            "    struct GET_argument_wrap *arg = rqstp->rq_argp;",
            "    //",
            "    // Place for your logic",
            "    //",
            "    return rpc_success;",
            "}",
        ],
        lines(file)
    );
}

#[test]
fn arguments_of_a_client_are_encoded_out_of_their_wrap() {
    let handle = pointer_handle();
    let procedure = Procedure {
        name: "PUT".to_string(),
        return_type: Type::Void,
        arguments: vec![Type::Boolean, Type::Boolean],
    };
    let mut file = PlainFile::new("f".to_string());
    client::procedure::generate_procedure_arguments_encode_declaration(&handle, &mut file, &procedure, "V", "P");
    client::procedure::generate_procedure_result_decode_declaration(&handle, &mut file, &procedure, "V");
    assert!(!client::procedure::generate_procedure_release_declaration(&handle, &mut file, &procedure, "V", "P"));
    assert_eq!(
        vec![
            "void V_PUT_encode(struct rpc_rqst *rqstp, struct xdr_stream *xdr, const void *data) {",
            "    auth_handle_encode(rqstp, xdr, NULL);",
            "    const struct PUT_argument_wrap *arg = data;",
            "    int rc = 0;",
            "",
            "    {",
            "        int _rc = 0;",
            "        if (0 == rc",
            "            && 0 > (_rc = xdr_stream_encode_bool(xdr, arg->arg0))) {",
            "            rc = _rc;",
            "        }",
            "    }",
            "    {",
            "        int _rc = 0;",
            "        if (0 == rc",
            "            && 0 > (_rc = xdr_stream_encode_bool(xdr, arg->arg1))) {",
            "            rc = _rc;",
            "        }",
            "    }",
            "",
            "    if (0 != rc) {",
            "        printk(\"[P_V_PUT] Error during decode: %pe\", ERR_PTR(rc));",
            "    }",
            "}",
            "int V_PUT_decode(struct rpc_rqst *rqstp, struct xdr_stream *xdr, void *data) {",
            "    return 0;",
            "}",
        ],
        lines(file)
    );
}
