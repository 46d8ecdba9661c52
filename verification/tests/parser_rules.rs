use krpcgen::rpc::token::{Bracket, Keyword, Separator, Token};
use krpcgen::rpc::{Definition, Integer, NamedType, SwitchingType, Type, Value};
use krpcgen::rpc_lexer::lexer;
use krpcgen::rpc_parser::{
    parse, parse_program_definition, parse_struct_definition, parse_union_definition, Error, Handle,
    UnionArm,
};

fn tokens(source: &str) -> Vec<Token> {
    let mut rules = lexer();
    let mut found = rules.parse_str(source);
    let mut out = Vec::new();
    while let Some(token) = found.next() {
        out.push(token.unwrap());
    }
    out
}

fn failure(source: &str) -> Error {
    parse(tokens(source)).unwrap_err()
}

fn definitions(source: &str) -> Vec<Definition> {
    parse(tokens(source)).unwrap().definitions
}

#[test]
fn unknown_definition() {
    match failure("int x;") {
        Error::UnknownDefinition(Token::Type(krpcgen::rpc::token::Type::Integer)) => {}
        other => panic!("{other:?}"),
    }
}

#[test]
fn unexpected_token_names_what_was_expected() {
    match failure("const A 5;") {
        Error::UnexpectedToken(msg, token) => {
            assert_eq!("Expected assign sign", msg);
            assert_eq!(Token::Literal(krpcgen::rpc::token::Literal::Integer(5)), token);
        }
        other => panic!("{other:?}"),
    }
    match failure("union U switch (int v) { int x; };") {
        Error::UnexpectedToken(msg, _) => assert_eq!("Matching value expected", msg),
        other => panic!("{other:?}"),
    }
    match failure("typedef unsigned bool x;") {
        Error::UnexpectedToken(msg, _) => assert_eq!("Expected integer type", msg),
        other => panic!("{other:?}"),
    }
}

#[test]
fn expression_not_closed() {
    match failure("const A = 5 const B = 6;") {
        Error::ExpressionNotClosed(msg, token) => {
            assert_eq!("Const definition wasn't finished", msg);
            assert_eq!(Token::Keyword(Keyword::Const), token);
        }
        other => panic!("{other:?}"),
    }
    match failure("enum E { A } const") {
        Error::ExpressionNotClosed(msg, _) => assert_eq!("Enum definition wasn't finished", msg),
        other => panic!("{other:?}"),
    }
}

#[test]
fn unexpected_end() {
    match failure("const A =") {
        Error::UnexpectedEOF(msg) => assert_eq!("Expected value", msg),
        other => panic!("{other:?}"),
    }
    match failure("struct S {") {
        Error::UnexpectedEOF(msg) => assert_eq!("Expected declaration type", msg),
        other => panic!("{other:?}"),
    }
    match failure("program P { version V { void F(void) = 1; }") {
        Error::UnexpectedEOF(msg) => assert_eq!("Number not assigned to version", msg),
        other => panic!("{other:?}"),
    }
}

#[test]
fn undefined_type() {
    match failure("typedef foo bar;") {
        Error::UndefinedType(msg) => assert_eq!("Unknown type identifier foo", msg),
        other => panic!("{other:?}"),
    }
    match failure("typedef struct S s;") {
        Error::UndefinedType(msg) => assert_eq!("Unknown struct with identifier S", msg),
        other => panic!("{other:?}"),
    }
    match failure("typedef enum E e;") {
        Error::UndefinedType(msg) => assert_eq!("Unknown enum with identifier E", msg),
        other => panic!("{other:?}"),
    }
    match failure("typedef union U u;") {
        Error::UndefinedType(msg) => assert_eq!("Unknown union with identifier U", msg),
        other => panic!("{other:?}"),
    }
    match failure("typedef * p;") {
        Error::UndefinedType(msg) => assert_eq!("No type for pointer", msg),
        other => panic!("{other:?}"),
    }
}

#[test]
fn undefined_value() {
    match failure("const A = B;") {
        Error::UndefinedValue(name) => assert_eq!("B", name),
        other => panic!("{other:?}"),
    }
}

fn refused_size(source: &str) -> i64 {
    match failure(source) {
        Error::NonPositiveArraySize(n) => n,
        other => panic!("{other:?}"),
    }
}

#[test]
fn a_named_size_stands_for_a_positive_number() {
    assert_eq!(0, refused_size("const N = 0; typedef int a[N];"));
    assert_eq!(-4, refused_size("const N = -4; struct s { int a<N>; };"));
    assert_eq!(-4, refused_size("const N = -4; const M = N; typedef opaque o<M>;"));
    let defs = definitions("const N = 3; const M = N; typedef int a[M];");
    match &defs[2] {
        Definition::Typedef(name, tp) => {
            assert_eq!("a", name);
            assert_eq!(
                &Type::Array(Box::new(Type::Integer(Integer::Integer)), Value::Identifier("M".to_string())),
                tp
            );
        }
        other => panic!("{other:?}"),
    }
}

#[test]
fn a_tag_counts_on_from_the_tag_before_it() {
    let tags = "enum e { A, B, C = -2, D, E, F = B, G };";
    assert_eq!(0, refused_size(&format!("{tags} typedef int a[A];")));
    assert_eq!(-2, refused_size(&format!("{tags} typedef int a[C];")));
    assert_eq!(-1, refused_size(&format!("{tags} typedef int a[D];")));
    assert_eq!(0, refused_size(&format!("{tags} typedef int a<E>;")));
    assert_eq!(3, definitions(&format!("{tags} typedef int a[B]; typedef int b[F];")).len());
    assert_eq!(2, definitions(&format!("{tags} typedef int a[G];")).len());
    assert_eq!(0, refused_size("enum e { A = 5 }; enum f { B }; typedef int a[B];"));
    assert_eq!(0, refused_size("const N = 9223372036854775807; enum e { A = N, B }; enum f { C }; typedef int a[C];"));
    assert_eq!(3, definitions("const N = 9223372036854775807; enum e { A = N, B }; typedef int a[B];").len());
}

#[test]
fn array_sizes_are_positive() {
    match failure("typedef int a[0];") {
        Error::NonPositiveArraySize(0) => {}
        other => panic!("{other:?}"),
    }
    match failure("typedef int a<-4>;") {
        Error::NonPositiveArraySize(-4) => {}
        other => panic!("{other:?}"),
    }
    let defs = definitions("const N = 3; typedef int a[N]; typedef string s<>; typedef opaque o<0x10>;");
    match &defs[1] {
        Definition::Typedef(name, tp) => {
            assert_eq!("a", name);
            assert_eq!(
                &Type::Array(Box::new(Type::Integer(Integer::Integer)), Value::Identifier("N".to_string())),
                tp
            );
        }
        other => panic!("{other:?}"),
    }
    match &defs[2] {
        Definition::Typedef(_, tp) => assert_eq!(&Type::VArray(Box::new(Type::String), None), tp),
        other => panic!("{other:?}"),
    }
    match &defs[3] {
        Definition::Typedef(_, tp) => {
            assert_eq!(&Type::VArray(Box::new(Type::Opaque), Some(Value::Number(16))), tp)
        }
        other => panic!("{other:?}"),
    }
}

#[test]
fn types_are_defined_once() {
    match failure("enum E { A }; enum E { B };") {
        Error::TypeRedefined(msg) => assert_eq!("Enum with id \"E\" already exists", msg),
        other => panic!("{other:?}"),
    }
    match failure("struct S { int a; }; struct S { int b; };") {
        Error::TypeRedefined(msg) => assert_eq!("Struct with id \"S\" already exists", msg),
        other => panic!("{other:?}"),
    }
    match failure("union U switch (int v) { case 1: int a; }; union U switch (int v) { case 1: int a; };") {
        Error::TypeRedefined(msg) => assert_eq!("Union with id \"U\" already exists", msg),
        other => panic!("{other:?}"),
    }
    match failure("const X = 1; typedef int X;") {
        Error::TypeRedefined(msg) => assert_eq!("Type with identifier X already exists", msg),
        other => panic!("{other:?}"),
    }
}

#[test]
fn types_of_different_kinds_share_no_name() {
    match failure("struct S { int a; }; enum S { A };") {
        Error::TypeRedefined(msg) => assert_eq!("Enum with id \"S\" already exists", msg),
        other => panic!("{other:?}"),
    }
    match failure("enum S { A }; struct S { int a; };") {
        Error::TypeRedefined(msg) => assert_eq!("Struct with id \"S\" already exists", msg),
        other => panic!("{other:?}"),
    }
    match failure("typedef int S; union S switch (int v) { case 1: int a; };") {
        Error::TypeRedefined(msg) => assert_eq!("Union with id \"S\" already exists", msg),
        other => panic!("{other:?}"),
    }
    match failure("struct S { int a; }; typedef struct S S;") {
        Error::TypeRedefined(msg) => assert_eq!("Type with identifier S already exists", msg),
        other => panic!("{other:?}"),
    }
    match failure("union U switch (int v) { case 1: int a; }; typedef int U;") {
        Error::TypeRedefined(msg) => assert_eq!("Type with identifier U already exists", msg),
        other => panic!("{other:?}"),
    }
    assert_eq!(2, definitions("struct S { int a; }; typedef struct S s_t;").len());
}

#[test]
fn identifiers_are_defined_once() {
    match failure("const A = 1; const A = 2;") {
        Error::IdentifierRedefined(msg) => assert_eq!("Constant identifier \"A\" already exists", msg),
        other => panic!("{other:?}"),
    }
    match failure("const A = 1; enum E { A };") {
        Error::IdentifierRedefined(msg) => assert_eq!("Enum identifier \"A\" already exists", msg),
        other => panic!("{other:?}"),
    }
    match failure("typedef int P; program P { version V { void F(void) = 1; } = 1; } = 1;") {
        Error::IdentifierRedefined(msg) => assert_eq!("Program identifier \"P\" already exists", msg),
        other => panic!("{other:?}"),
    }
    match failure("program P { version V { void F(void) = 1; } = 1; version V { void F(void) = 1; } = 2; } = 1;") {
        Error::IdentifierRedefined(msg) => {
            assert_eq!("Version with identifier \"V\" already exists in current program", msg)
        }
        other => panic!("{other:?}"),
    }
    match failure("program P { version V { void F(void) = 1; int F(void) = 2; } = 1; } = 1;") {
        Error::IdentifierRedefined(msg) => {
            assert_eq!("Procedure with identifier \"F\" already exists in current version", msg)
        }
        other => panic!("{other:?}"),
    }
}

#[test]
fn fields_are_declared_once() {
    match failure("struct S { int a; bool a; };") {
        Error::StructureFieldRedefined(msg) => {
            assert_eq!("Field with identifier \"a\" already exists", msg)
        }
        other => panic!("{other:?}"),
    }
}

#[test]
fn only_integers_and_enums_discriminate() {
    match failure("union U switch (bool b) { case 1: int x; };") {
        Error::NotSwitchingType(Type::Boolean) => {}
        other => panic!("{other:?}"),
    }
    match failure("union U switch (int *b) { case 1: int x; };") {
        Error::NotSwitchingType(Type::Pointer(_)) => {}
        other => panic!("{other:?}"),
    }
    let defs = definitions("union U switch (unsigned hyper v) { case 1: int x; };");
    match &defs[0] {
        Definition::Union(_, un) => {
            assert_eq!(SwitchingType::Unsigned(Integer::Hyper), un.switch_type);
            assert_eq!("v", un.value);
        }
        other => panic!("{other:?}"),
    }
}

#[test]
fn arms_stand_under_values_of_their_own() {
    match failure("union U switch (int v) { case 1: int x; case 1: int y; };") {
        Error::UnionArmRedefined(UnionArm::Regular(Value::Number(1))) => {}
        other => panic!("{other:?}"),
    }
    match failure("const A = 1; union U switch (int v) { case A: int x; case A: int y; };") {
        Error::UnionArmRedefined(UnionArm::Regular(Value::Identifier(name))) => assert_eq!("A", name),
        other => panic!("{other:?}"),
    }
}

#[test]
fn a_union_has_one_default_arm() {
    match failure("union U switch (int d) { default: int a; default: int b; };") {
        Error::UnionArmRedefined(UnionArm::Default) => {}
        other => panic!("{other:?}"),
    }
    match failure("union U switch (int d) { case 1: int x; default: int a; case 2: int y; default: int b; };") {
        Error::UnionArmRedefined(UnionArm::Default) => {}
        other => panic!("{other:?}"),
    }
    let defs = definitions("union U switch (int v) { default: int x; case 1: int y; };");
    match &defs[0] {
        Definition::Union(_, un) => {
            assert_eq!(Some(("x".to_string(), Type::Integer(Integer::Integer))), un.default);
            assert_eq!(1, un.arms.len());
            assert_eq!(
                Some(&("y".to_string(), Type::Integer(Integer::Integer))),
                un.arms.get(&Value::Number(1))
            );
        }
        other => panic!("{other:?}"),
    }
    match failure("union U switch (int v) { default: int x; case 1: int y; case 1: int z; };") {
        Error::UnionArmRedefined(UnionArm::Regular(Value::Number(1))) => {}
        other => panic!("{other:?}"),
    }
}

#[test]
fn a_failed_program_takes_nothing() {
    let source = "program P { version V { void F(void) = 1; } = 1; } = 7; \
                  program Q { version V { void F(void) = 1; } = 1; } = 7; const Q = 1;";
    match failure(source) {
        Error::ProgramNumberReassigned(Value::Number(7)) => {}
        other => panic!("{other:?}"),
    }
}

#[test]
fn a_failed_definition_leaves_the_names_alone() {
    let mut handle = Handle::new(tokens("S { int a; int a; };"));
    assert!(parse_struct_definition(&mut handle).is_err());
    assert_eq!(None, handle.pending_types.structs);
    assert!(handle.defined_types.structs.is_empty());
    assert!(handle.namespace.is_empty());

    let mut handle = Handle::new(tokens("U switch (int v) { case 1: int a; case 1: int b; };"));
    assert!(parse_union_definition(&mut handle).is_err());
    assert_eq!(None, handle.pending_types.unions);
    assert!(handle.defined_types.unions.is_empty());

    let source = "P { version V { void F(void) = 1; } = 1; } = 7; \
                  Q { version V { void F(void) = 1; } = 1; } = 7;";
    let mut handle = Handle::new(tokens(source));
    assert!(parse_program_definition(&mut handle).is_ok());
    assert!(parse_program_definition(&mut handle).is_err());
    assert_eq!(vec!["P".to_string()], handle.namespace);
    assert_eq!(vec![Value::Number(7)], handle.assigned_numbers);
}

#[test]
fn a_type_that_is_being_defined_is_only_pointed_to() {
    match failure("struct S { struct S x; };") {
        Error::UseOfPendingType(msg) => {
            assert_eq!("Can't use struct \"S\" that is being defined directly", msg)
        }
        other => panic!("{other:?}"),
    }
    match failure("union U switch (int v) { case 1: union U x; };") {
        Error::UseOfPendingType(msg) => {
            assert_eq!("Can't use union \"U\" that is being defined directly", msg)
        }
        other => panic!("{other:?}"),
    }
    let defs = definitions("struct BAKERY { int op; struct BAKERY *next; }; struct T { struct BAKERY b; };");
    match &defs[0] {
        Definition::Struct(name, st) => {
            assert_eq!("BAKERY", name);
            assert_eq!(
                Some(&Type::Pointer(Box::new(Type::Named(NamedType::Struct("BAKERY".to_string()))))),
                st.get("next")
            );
        }
        other => panic!("{other:?}"),
    }
    match &defs[1] {
        Definition::Struct(_, st) => {
            assert_eq!(Some(&Type::Named(NamedType::Struct("BAKERY".to_string()))), st.get("b"))
        }
        other => panic!("{other:?}"),
    }
}

#[test]
fn numbers_are_assigned_once() {
    match failure(
        "program P { version V { void F(void) = 1; } = 1; } = 7; program Q { version V { void F(void) = 1; } = 1; } = 7;",
    ) {
        Error::ProgramNumberReassigned(Value::Number(7)) => {}
        other => panic!("{other:?}"),
    }
    match failure("program P { version V { void F(void) = 1; } = 1; version W { void F(void) = 1; } = 1; } = 7;") {
        Error::VersionNumberReassigned(Value::Number(1)) => {}
        other => panic!("{other:?}"),
    }
    match failure("program P { version V { void F(void) = 1; int G(void) = 1; } = 1; } = 7;") {
        Error::ProcedureNumberReassigned(Value::Number(1)) => {}
        other => panic!("{other:?}"),
    }
}

#[test]
fn union_over_enum() {
    let defs = definitions(
        "enum cases { NUMBERS = 1, NAME, };
         union test switch (enum cases value) {
             case NUMBERS: unsigned int values[10];
             case NAME: string name<>;
             default: void;
         };",
    );
    assert_eq!(2, defs.len());
    match &defs[0] {
        Definition::Enum(name, tags) => {
            assert_eq!("cases", name);
            assert_eq!(
                &vec![("NUMBERS".to_string(), Some(Value::Number(1))), ("NAME".to_string(), None)],
                tags
            );
        }
        other => panic!("{other:?}"),
    }
    match &defs[1] {
        Definition::Union(name, un) => {
            assert_eq!("test", name);
            assert_eq!("value", un.value);
            assert_eq!(SwitchingType::Enum("cases".to_string()), un.switch_type);
            assert_eq!(2, un.arms.len());
            assert_eq!(
                Some((
                    &Value::Identifier("NUMBERS".to_string()),
                    &(
                        "values".to_string(),
                        Type::Array(Box::new(Type::Unsigned(Integer::Integer)), Value::Number(10))
                    )
                )),
                un.arms.get_index(0)
            );
            assert_eq!(
                Some((
                    &Value::Identifier("NAME".to_string()),
                    &("name".to_string(), Type::VArray(Box::new(Type::String), None))
                )),
                un.arms.get_index(1)
            );
            assert_eq!(Some((String::new(), Type::Void)), un.default);
        }
        other => panic!("{other:?}"),
    }
}

#[test]
fn procedures_take_their_arguments_in_order() {
    let defs = definitions(
        "program P { version V { int F(int, bool *, string<8>) = 1; void G(void) = 2; } = 1; } = 0x10;",
    );
    match &defs[0] {
        Definition::Program(number, program) => {
            assert_eq!(&Value::Number(16), number);
            let version = program.versions.get(&Value::Number(1)).unwrap();
            let f = version.procedures.get(&Value::Number(1)).unwrap();
            assert_eq!(
                vec![
                    Type::Integer(Integer::Integer),
                    Type::Pointer(Box::new(Type::Boolean)),
                    Type::VArray(Box::new(Type::String), Some(Value::Number(8))),
                ],
                f.arguments
            );
            let g = version.procedures.get(&Value::Number(2)).unwrap();
            assert!(g.arguments.is_empty());
            assert_eq!(Type::Void, g.return_type);
        }
        other => panic!("{other:?}"),
    }
}

#[test]
fn comments_change_nothing() {
    let plain = "const A = 1; struct S { int a; };";
    let commented = "/* first */ const /* name */ A = 1; // the end\n struct S { /**/ int a; }; // done";
    let without: Vec<Token> = tokens(plain);
    let with: Vec<Token> = tokens(commented);
    assert!(with.len() > without.len());
    let first = parse(without).unwrap();
    let second = parse(with).unwrap();
    assert_eq!(format!("{:?}", first.definitions), format!("{:?}", second.definitions));
}

#[test]
fn the_same_tokens_give_the_same_module() {
    let source = "enum E { A, B = 2 }; typedef enum E e; const C = B;";
    let first = parse(tokens(source)).unwrap();
    let second = parse(tokens(source)).unwrap();
    assert_eq!(format!("{:?}", first.definitions), format!("{:?}", second.definitions));
}

#[test]
fn no_tokens_make_an_empty_module() {
    assert!(parse(vec![]).unwrap().definitions.is_empty());
    assert!(parse(vec![Token::Comment("only".to_string())]).unwrap().definitions.is_empty());
    match parse(vec![Token::Bracket(Bracket::Left), Token::Separator(Separator::Comma)]) {
        Err(Error::UnknownDefinition(Token::Bracket(Bracket::Left))) => {}
        other => panic!("{other:?}"),
    }
}
