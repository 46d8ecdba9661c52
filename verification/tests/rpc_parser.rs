use indexmap::IndexMap;
use krpcgen::rpc;
use krpcgen::rpc::token;
use krpcgen::rpc_parser::parse;

fn number(number: i64) -> rpc::Value {
    rpc::Value::Number(number)
}

fn check_procedure(
    procedures: &IndexMap<rpc::Value, rpc::Procedure>,
    number: i64,
    name: &str,
    arguments: Vec<rpc::Type>,
    return_type: rpc::Type,
) {
    let v = rpc::Value::Number(number);
    match procedures.get(&v) {
        None => panic!("No procedure with value {v:?} found"),
        Some(proc) => {
            assert_eq!(name, proc.name);
            assert_eq!(arguments, proc.arguments);
            assert_eq!(return_type, proc.return_type);
        }
    }
}

fn check_version<'a>(
    versions: &'a IndexMap<rpc::Value, rpc::Version>,
    number: i64,
    name: &str,
    size: usize,
) -> &'a IndexMap<rpc::Value, rpc::Procedure> {
    let v = rpc::Value::Number(number);
    match versions.get(&v) {
        None => panic!("No version with value {v:?} found"),
        Some(ver) => {
            assert_eq!(name, ver.name);
            assert_eq!(size, ver.procedures.len());
            &ver.procedures
        }
    }
}

fn check_field(st: &rpc::Struct, field: &str, tp: rpc::Type) {
    match st.get(field) {
        None => panic!("No field \"{}\" found", field),
        Some(found) => {
            if *found != tp {
                panic!("type {:?} for field \"{}\" expected, got {found:?}", tp, field);
            }
        }
    }
}

fn bakery_type() -> rpc::Type {
    rpc::Type::Named(rpc::NamedType::Struct(String::from("BAKERY")))
}

fn ping_progr() -> [token::Token; 55] { [
    token::Token::Comment("\n * Simple ping program\n ".to_string()),
    token::Token::Keyword(token::Keyword::Program), token::Token::Identifier("PING_PROG".to_string()), token::Token::Bracket(token::Bracket::LeftCurly),
        token::Token::Keyword(token::Keyword::Version), token::Token::Identifier("PING_VERS_PINGBACK".to_string()), token::Token::Bracket(token::Bracket::LeftCurly),
            token::Token::Type(token::Type::Void), token::Token::Identifier("PINGPROC_NULL".to_string()), token::Token::Bracket(token::Bracket::Left), token::Token::Type(token::Type::Void), token::Token::Bracket(token::Bracket::Right),
            token::Token::Operator(token::Operator::Assign), token::Token::Literal(token::Literal::Integer(0)), token::Token::Separator(token::Separator::Semicolon),
            token::Token::Comment(String::from(
                 "
                 * ping the caller, return the round-trip time
                 * in milliseconds. Return a minus one (-1) if
                 * operation times-out
                 "
            )),
            token::Token::Type(token::Type::Integer), token::Token::Identifier("PINGPROC_PINGBACK".to_string()), token::Token::Bracket(token::Bracket::Left), token::Token::Type(token::Type::Void), token::Token::Bracket(token::Bracket::Right),
            token::Token::Operator(token::Operator::Assign), token::Token::Literal(token::Literal::Integer(1)), token::Token::Separator(token::Separator::Semicolon),
            token::Token::Comment(String::from(
                " void - above is an argument to the call "
            )),
        token::Token::Bracket(token::Bracket::RightCurly),
        token::Token::Operator(token::Operator::Assign), token::Token::Literal(token::Literal::Integer(2)), token::Token::Separator(token::Separator::Semicolon),
        token::Token::Comment(String::from("\n * Original version\n ")),
        token::Token::Keyword(token::Keyword::Version), token::Token::Identifier("PING_VERS_ORIG".to_string()), token::Token::Bracket(token::Bracket::LeftCurly),
            token::Token::Type(token::Type::Void), token::Token::Identifier("PINGPROC_NULL".to_string()), token::Token::Bracket(token::Bracket::Left), token::Token::Type(token::Type::Void), token::Token::Bracket(token::Bracket::Right),
            token::Token::Operator(token::Operator::Assign), token::Token::Literal(token::Literal::Integer(0)), token::Token::Separator(token::Separator::Semicolon),
        token::Token::Bracket(token::Bracket::RightCurly),
        token::Token::Operator(token::Operator::Assign), token::Token::Literal(token::Literal::Integer(1)), token::Token::Separator(token::Separator::Semicolon),
    token::Token::Bracket(token::Bracket::RightCurly), token::Token::Operator(token::Operator::Assign), token::Token::Literal(token::Literal::Integer(200000)), token::Token::Separator(token::Separator::Semicolon),
    token::Token::Keyword(token::Keyword::Const), token::Token::Identifier("PING_VERS".to_string()), token::Token::Operator(token::Operator::Assign), token::Token::Literal(token::Literal::Integer(2)), token::Token::Separator(token::Separator::Semicolon),
    token::Token::Comment(String::from(" latest version ")),
] }

#[test]
fn ping() {
    let module = parse(ping_progr().to_vec()).unwrap();
    let mut defs = module.definitions.iter();

    match defs.next() {
        Some(rpc::Definition::Program(v, progr)) => {
            assert_eq!(&number(200000), v);
            assert_eq!("PING_PROG", progr.name);
            assert_eq!(2, progr.versions.len());
            let procedures = check_version(&progr.versions, 2, "PING_VERS_PINGBACK", 2);
            check_procedure(procedures, 0, "PINGPROC_NULL", vec![], rpc::Type::Void);
            check_procedure(
                procedures,
                1,
                "PINGPROC_PINGBACK",
                vec![],
                rpc::Type::Integer(rpc::Integer::Integer),
            );
            let procedures = check_version(&progr.versions, 1, "PING_VERS_ORIG", 1);
            check_procedure(procedures, 0, "PINGPROC_NULL", vec![], rpc::Type::Void);
        }
        _ => panic!("Program expected"),
    }

    match defs.next() {
        Some(rpc::Definition::Const(id, v)) => {
            assert_eq!("PING_VERS", id.as_str());
            assert_eq!(&rpc::Value::Number(2), v);
        }
        _ => panic!("Const expected"),
    }

    if let Some(_) = defs.next() {
        panic!("End expected")
    }
}

fn bakery_progr() -> [token::Token; 121] { [
    token::Token::Keyword(token::Keyword::Const), token::Token::Identifier("REGISTER".to_string()), token::Token::Operator(token::Operator::Assign), token::Token::Literal(token::Literal::Integer(0)), token::Token::Separator(token::Separator::Semicolon),
    token::Token::Keyword(token::Keyword::Const), token::Token::Identifier("ACCESS".to_string()), token::Token::Operator(token::Operator::Assign), token::Token::Literal(token::Literal::Integer(1)), token::Token::Separator(token::Separator::Semicolon),
    token::Token::Keyword(token::Keyword::Const), token::Token::Identifier("GET".to_string()), token::Token::Operator(token::Operator::Assign), token::Token::Literal(token::Literal::Integer(2)), token::Token::Separator(token::Separator::Semicolon),
    token::Token::Keyword(token::Keyword::Const), token::Token::Identifier("STATUS".to_string()), token::Token::Operator(token::Operator::Assign), token::Token::Literal(token::Literal::Integer(3)), token::Token::Separator(token::Separator::Semicolon),
    token::Token::Keyword(token::Keyword::Const), token::Token::Identifier("OP_MAX".to_string()), token::Token::Operator(token::Operator::Assign), token::Token::Literal(token::Literal::Integer(4)), token::Token::Separator(token::Separator::Semicolon),
    token::Token::Keyword(token::Keyword::Const), token::Token::Identifier("STATUS_FREE".to_string()), token::Token::Operator(token::Operator::Assign), token::Token::Literal(token::Literal::Integer(0)), token::Token::Separator(token::Separator::Semicolon),
    token::Token::Keyword(token::Keyword::Const), token::Token::Identifier("STATUS_REGISTERED".to_string()), token::Token::Operator(token::Operator::Assign), token::Token::Literal(token::Literal::Integer(1)), token::Token::Separator(token::Separator::Semicolon),
    token::Token::Keyword(token::Keyword::Const), token::Token::Identifier("STATUS_ACCESSING".to_string()), token::Token::Operator(token::Operator::Assign), token::Token::Literal(token::Literal::Integer(2)), token::Token::Separator(token::Separator::Semicolon),
    token::Token::Keyword(token::Keyword::Const), token::Token::Identifier("STATUS_READY_FOR_CR".to_string()), token::Token::Operator(token::Operator::Assign), token::Token::Literal(token::Literal::Integer(3)), token::Token::Separator(token::Separator::Semicolon),
    token::Token::Keyword(token::Keyword::Const), token::Token::Identifier("ERROR_WRONG_ID_RPC".to_string()), token::Token::Operator(token::Operator::Assign), token::Token::Literal(token::Literal::Integer(-1)), token::Token::Separator(token::Separator::Semicolon),
    token::Token::Keyword(token::Keyword::Const), token::Token::Identifier("ERROR_INCOMPATIBLE_HANLE_RPC".to_string()), token::Token::Operator(token::Operator::Assign), token::Token::Literal(token::Literal::Integer(-2)), token::Token::Separator(token::Separator::Semicolon),
    token::Token::Keyword(token::Keyword::Const), token::Token::Identifier("ERROR_WRONG_STATUS_RPC".to_string()), token::Token::Operator(token::Operator::Assign), token::Token::Literal(token::Literal::Integer(-3)), token::Token::Separator(token::Separator::Semicolon),
    token::Token::Keyword(token::Keyword::Const), token::Token::Identifier("ERROR_REJECT_ACCESS_RPC".to_string()), token::Token::Operator(token::Operator::Assign), token::Token::Literal(token::Literal::Integer(-4)), token::Token::Separator(token::Separator::Semicolon),
    token::Token::Keyword(token::Keyword::Const), token::Token::Identifier("ERROR_WRONG_OP_RPC".to_string()), token::Token::Operator(token::Operator::Assign), token::Token::Literal(token::Literal::Integer(-5)), token::Token::Separator(token::Separator::Semicolon),
    token::Token::Type(token::Type::Struct), token::Token::Identifier("BAKERY".to_string()), token::Token::Bracket(token::Bracket::LeftCurly),
        token::Token::Type(token::Type::Integer), token::Token::Identifier("op".to_string()), token::Token::Separator(token::Separator::Semicolon),
        token::Token::Type(token::Type::Integer), token::Token::Identifier("id".to_string()), token::Token::Separator(token::Separator::Semicolon), token::Token::Type(token::Type::Integer), token::Token::Identifier("num".to_string()), token::Token::Separator(token::Separator::Semicolon),
        token::Token::Type(token::Type::Integer), token::Token::Identifier("result".to_string()), token::Token::Separator(token::Separator::Semicolon),
        token::Token::Type(token::Type::Struct), token::Token::Identifier("BAKERY".to_string()), token::Token::Type(token::Type::Pointer), token::Token::Identifier("not_supposed_2_be_here".to_string()), token::Token::Separator(token::Separator::Semicolon),
    token::Token::Bracket(token::Bracket::RightCurly), token::Token::Separator(token::Separator::Semicolon),
    token::Token::Keyword(token::Keyword::Typedef), token::Token::Type(token::Type::Struct), token::Token::Identifier("BAKERY".to_string()), token::Token::Identifier("BAKERY".to_string()), token::Token::Separator(token::Separator::Semicolon),
    token::Token::Keyword(token::Keyword::Program), token::Token::Identifier("BAKERY_PROG".to_string()), token::Token::Bracket(token::Bracket::LeftCurly),
        token::Token::Keyword(token::Keyword::Version), token::Token::Identifier("BAKERY_VER".to_string()), token::Token::Bracket(token::Bracket::LeftCurly),
            token::Token::Type(token::Type::Struct), token::Token::Identifier("BAKERY".to_string()), token::Token::Identifier("BAKERY_PROC".to_string()), token::Token::Bracket(token::Bracket::Left), token::Token::Type(token::Type::Struct), token::Token::Identifier("BAKERY".to_string()), token::Token::Bracket(token::Bracket::Right),
            token::Token::Operator(token::Operator::Assign), token::Token::Literal(token::Literal::Integer(1)), token::Token::Separator(token::Separator::Semicolon),
        token::Token::Bracket(token::Bracket::RightCurly),
        token::Token::Operator(token::Operator::Assign), token::Token::Literal(token::Literal::Integer(1)), token::Token::Separator(token::Separator::Semicolon),
    token::Token::Bracket(token::Bracket::RightCurly),
    token::Token::Operator(token::Operator::Assign), token::Token::Literal(token::Literal::Integer(0x20000001)), token::Token::Separator(token::Separator::Semicolon),
] }

fn check_const(def: Option<&rpc::Definition>, name: &str, value: i64) {
    match def {
        Some(rpc::Definition::Const(id, v)) => {
            assert_eq!(name, id.as_str());
            assert_eq!(&rpc::Value::Number(value), v);
        }
        _ => panic!("Const expected"),
    }
}

#[test]
fn bakery() {
    match parse(bakery_progr().to_vec()) {
        Err(krpcgen::rpc_parser::Error::TypeRedefined(msg)) => {
            assert_eq!("Type with identifier BAKERY already exists", msg)
        }
        other => panic!("{other:?}"),
    }
}

fn bakery_without_typedef() -> Vec<token::Token> {
    let typedef = [
        token::Token::Keyword(token::Keyword::Typedef),
        token::Token::Type(token::Type::Struct),
        token::Token::Identifier("BAKERY".to_string()),
        token::Token::Identifier("BAKERY".to_string()),
        token::Token::Separator(token::Separator::Semicolon),
    ];
    let all = bakery_progr().to_vec();
    let at = (0..all.len() - typedef.len()).find(|i| all[*i..*i + typedef.len()] == typedef).unwrap();
    let mut out = all[..at].to_vec();
    out.extend_from_slice(&all[at + typedef.len()..]);
    out
}

#[test]
fn bakery_with_one_type_of_the_name() {
    let module = parse(bakery_without_typedef()).unwrap();
    let mut defs = module.definitions.iter();

    check_const(defs.next(), "REGISTER", 0);
    check_const(defs.next(), "ACCESS", 1);
    check_const(defs.next(), "GET", 2);
    check_const(defs.next(), "STATUS", 3);
    check_const(defs.next(), "OP_MAX", 4);

    check_const(defs.next(), "STATUS_FREE", 0);
    check_const(defs.next(), "STATUS_REGISTERED", 1);
    check_const(defs.next(), "STATUS_ACCESSING", 2);
    check_const(defs.next(), "STATUS_READY_FOR_CR", 3);

    check_const(defs.next(), "ERROR_WRONG_ID_RPC", -1);
    check_const(defs.next(), "ERROR_INCOMPATIBLE_HANLE_RPC", -2);
    check_const(defs.next(), "ERROR_WRONG_STATUS_RPC", -3);
    check_const(defs.next(), "ERROR_REJECT_ACCESS_RPC", -4);
    check_const(defs.next(), "ERROR_WRONG_OP_RPC", -5);

    match defs.next() {
        Some(rpc::Definition::Struct(id, st)) => {
            assert_eq!("BAKERY", id.as_str());
            assert_eq!(5, st.len());
            check_field(st, "op", rpc::Type::Integer(rpc::Integer::Integer));
            check_field(st, "id", rpc::Type::Integer(rpc::Integer::Integer));
            check_field(st, "num", rpc::Type::Integer(rpc::Integer::Integer));
            check_field(st, "result", rpc::Type::Integer(rpc::Integer::Integer));
            check_field(st, "not_supposed_2_be_here", rpc::Type::Pointer(Box::new(bakery_type())));
        }
        _ => panic!("Const expected"),
    }

    match defs.next() {
        Some(rpc::Definition::Program(v, progr)) => {
            assert_eq!(&number(0x20000001), v);
            assert_eq!("BAKERY_PROG", progr.name);
            assert_eq!(1, progr.versions.len());
            let procedures = check_version(&progr.versions, 1, "BAKERY_VER", 1);
            check_procedure(procedures, 1, "BAKERY_PROC", vec![bakery_type()], bakery_type());
        }
        _ => panic!("Program expected"),
    }

    if let Some(_) = defs.next() {
        panic!("End expected")
    }
}

fn enum_test_p() -> [token::Token; 16] { [
    token::Token::Type(token::Type::Enum), token::Token::Identifier("Test".to_string()), token::Token::Bracket(token::Bracket::LeftCurly),
        token::Token::Identifier("A".to_string()), token::Token::Separator(token::Separator::Comma),
        token::Token::Identifier("B".to_string()), token::Token::Operator(token::Operator::Assign), token::Token::Literal(token::Literal::Integer(3)), token::Token::Separator(token::Separator::Comma),
        token::Token::Identifier("C".to_string()), token::Token::Operator(token::Operator::Assign), token::Token::Identifier("A".to_string()), token::Token::Separator(token::Separator::Comma),
        token::Token::Identifier("D".to_string()),
    token::Token::Bracket(token::Bracket::RightCurly), token::Token::Separator(token::Separator::Semicolon),
] }

#[test]
fn enum_test() {
    let module = parse(enum_test_p().to_vec()).unwrap();
    let mut defs = module.definitions.iter();

    match defs.next() {
        Some(rpc::Definition::Enum(id, en)) => {
            assert_eq!("Test", id.as_str());
            assert_eq!(
                &vec![
                    ("A".to_string(), None),
                    ("B".to_string(), Some(rpc::Value::Number(3))),
                    ("C".to_string(), Some(rpc::Value::Identifier("A".to_string()))),
                    ("D".to_string(), None),
                ],
                en
            );
        }
        _ => panic!("Enum expected"),
    }

    if let Some(_) = defs.next() {
        panic!("End expected")
    }
}
