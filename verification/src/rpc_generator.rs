//! The emitter: from the definitions of a module to the lines of the C
//! sources of its client and server kernel modules.

use vstd::prelude::*;
use crate::rpc::{
    Definition, Procedure, Program, Value, Version, program_versions, version_procedures,
    procedures_entry, procedures_len, versions_entry, versions_len,
};
use crate::rpc_generator::config::{Config, path, path_of};
use crate::rpc_generator::file::{
    File, HFile, PlainFile, Sink, Tree, Written, emit, emit3, header_file, header_start,
    join_path, joined, plain_file,
};
use crate::rpc_generator::handle::{
    Handle, Tables, TypeName, constants_entry, constants_len, enums_entry, enums_len, lookup,
    programs_entry, programs_len, struct_entries, struct_named, typedef_named, union_entries,
    union_named,
};
use crate::rpc_generator::program::{client, server};
use crate::rpc_generator::program::server::versions_numbered;
use crate::rpc_generator::misc::value_number;
use crate::rpc_generator::types::printables::{
    constant_lines, enum_lines, print_constant, print_enum, print_struct, print_typedef,
    print_union, struct_lines, typedef_lines, union_lines,
};
use crate::rpc_generator::types::{
    Constants, argument_wrap, generate_argument_wrap, misc_constants, misc_constants_lines,
    misc_types, misc_types_lines,
};
use crate::rpc_generator::types::supported_procedure_printable;

pub mod config;
pub mod file;
pub mod handle;
pub mod laws;
pub mod make;
pub mod misc;
pub mod program;
pub mod types;

verus! {

/// Why no sources can be written for a module.
#[derive(Debug, Clone, Copy, PartialEq, Eq, Structural)]
pub enum Error {
    /// A declared type cannot be written in C: it holds a quadruple float,
    /// or the type without values where nothing points to it.
    UnprintableType,
    /// The result or an argument of a procedure has no wire code: it holds
    /// a name that is not declared or that leads back to itself, a
    /// quadruple float, an empty structure or union, a string or an opaque
    /// that is not the element of an array, or it cannot be written in C.
    UnsupportedProcedure,
    /// The number of a version names no constant that leads to a number.
    UnknownVersionNumber,
    /// The module declares no program: there is no module to build.
    NoProgram,
}

/// Whether wire code can be written for every procedure of every program.
pub open spec fn programs_supported(tables: Tables) -> bool {
    forall|i: int|
        0 <= i < tables.programs.len() ==> tables.supports_program((#[trigger] tables.programs[i]).1)
}

/// Whether the number of every version of every program leads to a number.
pub open spec fn programs_numbered(tables: Tables) -> bool {
    forall|i: int|
        0 <= i < tables.programs.len() ==> versions_numbered(
            tables,
            program_versions((#[trigger] tables.programs[i]).1.versions),
        )
}

/// What stands against writing the sources of a module, if anything does.
pub open spec fn refusal(tables: Tables) -> Option<Error> {
    if !tables.declarable() {
        Some(Error::UnprintableType)
    } else if !programs_supported(tables) {
        Some(Error::UnsupportedProcedure)
    } else if !programs_numbered(tables) {
        Some(Error::UnknownVersionNumber)
    } else if tables.programs.len() == 0 {
        Some(Error::NoProgram)
    } else {
        None
    }
}

/// The sink with the definitions of the first `n` constants.
pub open spec fn constant_definitions(s: Sink, constants: Seq<(String, Value)>, n: nat) -> Sink
    decreases n,
{
    if n == 0 || n > constants.len() {
        s
    } else {
        let s = constant_definitions(s, constants, (n - 1) as nat);
        constant_lines(s, constants[n - 1].0@, constants[n - 1].1)
    }
}

/// The sink with the numbers of the first `n` programs, each defined under
/// the name of its program.
pub open spec fn program_numbers(s: Sink, programs: Seq<(Value, Program)>, n: nat) -> Sink
    decreases n,
{
    if n == 0 || n > programs.len() {
        s
    } else {
        let s = program_numbers(s, programs, (n - 1) as nat);
        constant_lines(s, programs[n - 1].1.name@, programs[n - 1].0)
    }
}

/// The sink with the declarations of the first `n` enums.
pub open spec fn enum_declarations(s: Sink, enums: Seq<(String, crate::rpc::Enum)>, n: nat) -> Sink
    decreases n,
{
    if n == 0 || n > enums.len() {
        s
    } else {
        let s = enum_declarations(s, enums, (n - 1) as nat);
        enum_lines(s, enums[n - 1].0@, enums[n - 1].1)
    }
}

/// The content of `constants.h`: the limit of arrays without a bound, the
/// constants, the numbers of the programs and the enums.
pub open spec fn constants_content(s: Sink, tables: Tables, cfg: Option<Config>) -> Sink {
    let s = misc_constants_lines(s, Constants { vla_limit: crate::rpc_generator::config::vla_limit_of(cfg) });
    let s = s
        .put(""@);
    let s = constant_definitions(s, tables.constants, tables.constants.len());
    let s = s
        .put(""@);
    let s = program_numbers(s, tables.programs, tables.programs.len());
    let s = s
        .put(""@);
    enum_declarations(s, tables.enums, tables.enums.len())
}

fn write_constants<F: File>(handle: &Handle, file: &mut F, cfg: &Option<Config>)
    ensures
        final(file).sink() == constants_content(old(file).sink(), handle@, *cfg),
{
    misc_constants(file, Constants::new(cfg));
    emit(file, "");
    let ghost start_c = file.sink();
    let n_c = constants_len(&handle.constants);
    let mut i_c: usize = 0;
    while i_c < n_c
        invariant
            n_c == handle@.constants.len(),
            i_c <= n_c,
            file.sink() == constant_definitions(start_c, handle@.constants, i_c as nat),
        decreases n_c - i_c,
    {
        match constants_entry(&handle.constants, i_c) {
            Some((name, value)) => {
                print_constant(file, name.as_str(), value);
            },
            None => {},
        }
        i_c = i_c + 1;
    }
    emit(file, "");
    let ghost start_p = file.sink();
    let n_p = programs_len(&handle.programs);
    let mut i_p: usize = 0;
    while i_p < n_p
        invariant
            n_p == handle@.programs.len(),
            i_p <= n_p,
            file.sink() == program_numbers(start_p, handle@.programs, i_p as nat),
        decreases n_p - i_p,
    {
        match programs_entry(&handle.programs, i_p) {
            Some((number, program)) => {
                print_constant(file, program.name.as_str(), number);
            },
            None => {},
        }
        i_p = i_p + 1;
    }
    emit(file, "");
    let ghost start_e = file.sink();
    let n_e = enums_len(&handle.enums);
    let mut i_e: usize = 0;
    while i_e < n_e
        invariant
            n_e == handle@.enums.len(),
            i_e <= n_e,
            file.sink() == enum_declarations(start_e, handle@.enums, i_e as nat),
        decreases n_e - i_e,
    {
        match enums_entry(&handle.enums, i_e) {
            Some((name, en)) => {
                print_enum(file, name.as_str(), en);
            },
            None => {},
        }
        i_e = i_e + 1;
    }
}

/// The sink with the declaration of the type that `name` names, and an
/// empty line behind it; nothing for a name that is not declared.
pub open spec fn type_declaration(s: Sink, tables: Tables, name: TypeName) -> Sink {
    match name {
        TypeName::Typedef(name) => match lookup(tables.typedefs, name@) {
            Some(tp) => typedef_lines(s, name@, tp).put(""@),
            None => s,
        },
        TypeName::Struct(name) => match lookup(tables.structs, name@) {
            Some(st) => struct_lines(s, name@, st).put(""@),
            None => s,
        },
        TypeName::Union(name) => match lookup(tables.unions, name@) {
            Some(un) => union_lines(s, name@, un).put(""@),
            None => s,
        },
    }
}

/// The sink with the declarations of the first `n` types in the order of
/// their definition.
pub open spec fn type_declarations(s: Sink, tables: Tables, n: nat) -> Sink
    decreases n,
{
    if n == 0 || n > tables.order.len() {
        s
    } else {
        type_declaration(type_declarations(s, tables, (n - 1) as nat), tables, tables.order[n - 1])
    }
}

fn declare_type<F: File>(handle: &Handle, file: &mut F, name: &TypeName)
    requires
        handle@.declarable(),
    ensures
        final(file).sink() == type_declaration(old(file).sink(), handle@, *name),
{
    assert(handle@.typedefs == crate::rpc::struct_fields(handle.typedefs));
    assert(handle@.structs == struct_entries(handle.structs));
    assert(handle@.unions == union_entries(handle.unions));
    match name {
        TypeName::Typedef(name) => match typedef_named(&handle.typedefs, name.as_str()) {
            Some(tp) => {
                print_typedef(file, name.as_str(), tp);
                emit(file, "");
            },
            None => {},
        },
        TypeName::Struct(name) => match struct_named(&handle.structs, name.as_str()) {
            Some(st) => {
                print_struct(file, name.as_str(), st);
                emit(file, "");
            },
            None => {},
        },
        TypeName::Union(name) => match union_named(&handle.unions, name.as_str()) {
            Some(un) => {
                print_union(file, name.as_str(), un);
                emit(file, "");
            },
            None => {},
        },
    }
}

/// The content of `types.h`: the shared definitions, then every typedef,
/// structure and union in the order of its definition.
pub open spec fn types_content(s: Sink, tables: Tables) -> Sink {
    let s = s
        .put("#include <linux/module.h>"@)
        .put(""@)
        .put("#include \"constants.h\""@)
        .put(""@);
    let s = misc_types_lines(s);
    let s = s
        .put(""@);
    type_declarations(s, tables, tables.order.len())
}

fn write_types<F: File>(handle: &Handle, file: &mut F)
    requires
        handle@.declarable(),
    ensures
        final(file).sink() == types_content(old(file).sink(), handle@),
{
    emit(file, "#include <linux/module.h>");
    emit(file, "");
    emit(file, "#include \"constants.h\"");
    emit(file, "");
    misc_types(file);
    emit(file, "");
    let ghost start = file.sink();
    let n = handle.order.len();
    let mut i: usize = 0;
    while i < n
        invariant
            n == handle.order@.len(),
            i <= n,
            handle@.declarable(),
            file.sink() == type_declarations(start, handle@, i as nat),
        decreases n - i,
    {
        declare_type(handle, file, &handle.order[i]);
        i = i + 1;
    }
}

/// The content of `servers/common.h`.
pub open spec fn server_common_header(s: Sink) -> Sink {
    let s = s
        .put("#include <linux/sunrpc/svc.h>"@)
        .put(""@);
    let s = server::misc::thread_function_definition(s);
    server::misc::dispatch_definition(s)
}

fn write_server_common_header<F: File>(handle: &Handle, file: &mut F)
    ensures
        final(file).sink() == server_common_header(old(file).sink()),
{
    emit(file, "#include <linux/sunrpc/svc.h>");
    emit(file, "");
    server::misc::generate_thread_function_definition(handle, file);
    server::misc::generate_dispatch_definition(handle, file);
}

/// The content of `servers/common.c`.
pub open spec fn server_common_source(s: Sink) -> Sink {
    let s = s
        .put("#include <linux/kthread.h>"@)
        .put("#include <linux/freezer.h>"@)
        .put(""@)
        .put("#include <linux/sunrpc/svcsock.h>"@)
        .put(""@)
        .put("#include \"common.h\""@)
        .put(""@);
    let s = server::misc::thread_function_declaration(s);
    let s = s
        .put(""@);
    server::misc::dispatch_declaration(s)
}

fn write_server_common_source<F: File>(handle: &Handle, file: &mut F)
    ensures
        final(file).sink() == server_common_source(old(file).sink()),
{
    emit(file, "#include <linux/kthread.h>");
    emit(file, "#include <linux/freezer.h>");
    emit(file, "");
    emit(file, "#include <linux/sunrpc/svcsock.h>");
    emit(file, "");
    emit(file, "#include \"common.h\"");
    emit(file, "");
    server::misc::generate_thread_function_declaration(handle, file);
    emit(file, "");
    server::misc::generate_dispatch_declaration(handle, file);
}

/// The content of `constants.h` of the server of a program.
pub open spec fn server_program_constants(s: Sink, program: Program) -> Sink {
    let s = s
        .put("#include \"../../constants.h\""@)
        .put(""@);
    server::program_constants(s, program)
}

fn write_server_program_constants<F: File>(handle: &Handle, file: &mut F, program: &Program)
    ensures
        final(file).sink() == server_program_constants(old(file).sink(), *program),
{
    emit(file, "#include \"../../constants.h\"");
    emit(file, "");
    server::generate_program_constants(handle, file, program);
}

/// The content of `authentication.h` of the server of a program.
pub open spec fn server_authentication_header(s: Sink) -> Sink {
    let s = s
        .put("#include <linux/sunrpc/svcauth.h>"@)
        .put(""@);
    let s = server::auth_handle_size(s);
    let s = s
        .put(""@);
    server::auth_definition(s)
}

fn write_server_authentication_header<F: File>(handle: &Handle, file: &mut F, program: &Program)
    ensures
        final(file).sink() == server_authentication_header(old(file).sink()),
{
    emit(file, "#include <linux/sunrpc/svcauth.h>");
    emit(file, "");
    server::generate_program_auth_handle_size(handle, file, program);
    emit(file, "");
    server::generate_program_auth_definition(handle, file, program);
}

/// The content of `authentication.c` of the server of a program.
pub open spec fn server_authentication_source(s: Sink) -> Sink {
    let s = s
        .put("#include \"authentication.h\""@)
        .put(""@);
    server::auth_declaration(s)
}

fn write_server_authentication_source<F: File>(handle: &Handle, file: &mut F, program: &Program)
    ensures
        final(file).sink() == server_authentication_source(old(file).sink()),
{
    emit(file, "#include \"authentication.h\"");
    emit(file, "");
    server::generate_program_auth_declaraion(handle, file, program);
}

/// The sink with the inclusion of the header of each of the first `n`
/// versions.
pub open spec fn version_includes(s: Sink, versions: Seq<(Value, Version)>, n: nat) -> Sink
    decreases n,
{
    if n == 0 || n > versions.len() {
        s
    } else {
        let s = version_includes(s, versions, (n - 1) as nat);
        s
            .put("#include \""@ + versions[n - 1].1.name@ + "/version.h\""@)
    }
}

/// The content of `program.c` of the server of a program.
pub open spec fn server_module(s: Sink, tables: Tables, program: Program) -> Sink {
    let s = s
        .put("#include <linux/module.h>"@)
        .put("#include <linux/kernel.h>"@)
        .put(""@)
        .put("#include <linux/sunrpc/svc.h>"@)
        .put("#include <linux/sunrpc/svc_xprt.h>"@)
        .put(""@)
        .put("#include \"../common.h\""@)
        .put("#include \"constants.h\""@)
        .put("#include \"authentication.h\""@)
        .put(""@);
    let s = version_includes(s, program_versions(program.versions), program_versions(program.versions).len());
    let s = s
        .put(""@)
        .put("MODULE_LICENSE(\"GPL\");"@)
        .put(""@);
    let s = server::misc::program_parameters(s);
    let s = s
        .put(""@);
    let s = server::program_version_array(s, program);
    let s = s
        .put(""@);
    let s = server::program_declaration(s, tables, program);
    let s = s
        .put(""@);
    server::program_entrypoint(s, program)
}

fn write_server_module<F: File>(handle: &Handle, file: &mut F, program: &Program)
    requires
        versions_numbered(handle@, program_versions(program.versions)),
    ensures
        final(file).sink() == server_module(old(file).sink(), handle@, *program),
{
    emit(file, "#include <linux/module.h>");
    emit(file, "#include <linux/kernel.h>");
    emit(file, "");
    emit(file, "#include <linux/sunrpc/svc.h>");
    emit(file, "#include <linux/sunrpc/svc_xprt.h>");
    emit(file, "");
    emit(file, "#include \"../common.h\"");
    emit(file, "#include \"constants.h\"");
    emit(file, "#include \"authentication.h\"");
    emit(file, "");
    let ghost start = file.sink();
    let n = versions_len(&program.versions);
    let mut i: usize = 0;
    while i < n
        invariant
            n == program_versions(program.versions).len(),
            i <= n,
            file.sink() == version_includes(start, program_versions(program.versions), i as nat),
        decreases n - i,
    {
        match versions_entry(&program.versions, i) {
            Some((_, version)) => {
                emit3(file, "#include \"", version.name.as_str(), "/version.h\"");
            },
            None => {},
        }
        i = i + 1;
    }
    emit(file, "");
    emit(file, "MODULE_LICENSE(\"GPL\");");
    emit(file, "");
    server::misc::generate_program_parameters(handle, file);
    emit(file, "");
    server::generate_program_version_array(handle, file, program);
    emit(file, "");
    server::generate_program_declaraion(handle, file, program);
    emit(file, "");
    server::generate_program_entrypoint(handle, file, program);
}

/// The content of `constants.h` of a version of the server.
pub open spec fn server_version_constants(s: Sink, version: Version) -> Sink {
    let s = s
        .put("#include \"../constants.h\""@)
        .put(""@);
    server::version::version_constants(s, version)
}

fn write_server_version_constants<F: File>(handle: &Handle, file: &mut F, version: &Version)
    ensures
        final(file).sink() == server_version_constants(old(file).sink(), *version),
{
    emit(file, "#include \"../constants.h\"");
    emit(file, "");
    server::version::generate_version_constants(handle, file, version);
}

/// The content of `version.h` of a version of the server.
pub open spec fn server_version_header(s: Sink, version: Version) -> Sink {
    let s = s
        .put("#include <linux/sunrpc/svc.h>"@)
        .put(""@);
    server::version::version_definition(s, version)
}

fn write_server_version_header<F: File>(handle: &Handle, file: &mut F, version: &Version)
    ensures
        final(file).sink() == server_version_header(old(file).sink(), *version),
{
    emit(file, "#include <linux/sunrpc/svc.h>");
    emit(file, "");
    server::version::generate_version_definition(handle, file, version);
}

/// The content of `version.c` of a version of the server.
pub open spec fn server_version_source(s: Sink, tables: Tables, version: Version) -> Sink {
    let s = s
        .put("#include \"version.h\""@)
        .put("#include \"../../../types.h\""@)
        .put("#include \"../../common.h\""@)
        .put("#include \"../authentication.h\""@)
        .put("#include \"constants.h\""@)
        .put(""@)
        .put("#include \"procedures.h\""@)
        .put(""@);
    let s = server::version::procedures_array(s, tables, version);
    let s = s
        .put(""@);
    server::version::version_declaration(s, tables, version)
}

fn write_server_version_source<F: File>(handle: &Handle, file: &mut F, version: &Version)
    requires
        handle@.supports_version(*version),
    ensures
        final(file).sink() == server_version_source(old(file).sink(), handle@, *version),
{
    emit(file, "#include \"version.h\"");
    emit(file, "#include \"../../../types.h\"");
    emit(file, "#include \"../../common.h\"");
    emit(file, "#include \"../authentication.h\"");
    emit(file, "#include \"constants.h\"");
    emit(file, "");
    emit(file, "#include \"procedures.h\"");
    emit(file, "");
    server::version::generate_version_procedures_array(handle, file, version);
    emit(file, "");
    server::version::generate_version_declaraion(handle, file, version);
}

/// The sink with what `procedures.h` of the server holds for the first `n`
/// procedures of the version `ver`.
pub open spec fn server_procedure_prototypes(s: Sink, procedures: Seq<(Value, Procedure)>, n: nat, tables: Tables, ver: Seq<char>) -> Sink
    decreases n,
{
    if n == 0 || n > procedures.len() {
        s
    } else {
        let s = server_procedure_prototypes(s, procedures, (n - 1) as nat, tables, ver);
        let s = argument_wrap(s, procedures[n - 1].1);
        let s = if procedures[n - 1].1.arguments@.len() > 1 {
            s
                .put(""@)
        } else {
            s
        };
        let s = server::procedure::handler_definition(s, procedures[n - 1].1, ver);
        let s = server::procedure::arguments_decode_definition(s, procedures[n - 1].1, ver);
        let s = server::procedure::result_encode_definition(s, procedures[n - 1].1, ver);
        let s = if server::procedure::needs_release(tables, procedures[n - 1].1) {
            server::procedure::release_definition(s, procedures[n - 1].1, ver)
        } else {
            s
        };
        s
            .put(""@)
    }
}

/// The content of `procedures.h` of a version of the server: for each
/// procedure the structure that wraps its arguments, if it takes several,
/// and the prototypes of its handler and of its wire code.
pub open spec fn server_procedures_header(s: Sink, tables: Tables, version: Version) -> Sink {
    let s = s
        .put("#include <linux/sunrpc/svc.h>"@)
        .put("#include <linux/sunrpc/xdr.h>"@)
        .put(""@)
        .put("#include \"../../../types.h\""@)
        .put(""@);
    server_procedure_prototypes(s, version_procedures(version.procedures), version_procedures(version.procedures).len(), tables, version.name@)
}

fn write_server_procedures_header<F: File>(handle: &Handle, file: &mut F, version: &Version)
    requires
        handle@.supports_version(*version),
    ensures
        final(file).sink() == server_procedures_header(old(file).sink(), handle@, *version),
{
    emit(file, "#include <linux/sunrpc/svc.h>");
    emit(file, "#include <linux/sunrpc/xdr.h>");
    emit(file, "");
    emit(file, "#include \"../../../types.h\"");
    emit(file, "");
    let ghost start = file.sink();
    let n = procedures_len(&version.procedures);
    let mut i: usize = 0;
    while i < n
        invariant
            n == version_procedures(version.procedures).len(),
            i <= n,
            handle@.supports_version(*version),
            file.sink() == server_procedure_prototypes(start, version_procedures(version.procedures), i as nat, handle@, version.name@),
        decreases n - i,
    {
        match procedures_entry(&version.procedures, i) {
            Some((_, procedure)) => {
                proof {
                    assert(handle@.supports_procedure(version_procedures(version.procedures)[i as int].1));
                    supported_procedure_printable(handle@, *procedure);
                }
                if generate_argument_wrap(handle, file, procedure) {
                    emit(file, "");
                }
                server::procedure::generate_procedure_handler_definition(handle, file, procedure, version.name.as_str());
                server::procedure::generate_procedure_arguments_decode_definition(handle, file, procedure, version.name.as_str());
                server::procedure::generate_procedure_result_encode_definition(handle, file, procedure, version.name.as_str());
                if server::procedure::procedure_need_release(handle, procedure) {
                    server::procedure::generate_procedure_release_definition(handle, file, procedure, version.name.as_str());
                }
                emit(file, "");
            },
            None => {},
        }
        i = i + 1;
    }
}

/// The sink with the wire code of the first `n` procedures of the version
/// `ver` of the server.
pub open spec fn server_procedure_wire(s: Sink, procedures: Seq<(Value, Procedure)>, n: nat, tables: Tables, ver: Seq<char>) -> Sink
    decreases n,
{
    if n == 0 || n > procedures.len() {
        s
    } else {
        let s = server_procedure_wire(s, procedures, (n - 1) as nat, tables, ver);
        let s = server::procedure::arguments_decode_declaration(s, tables, procedures[n - 1].1, ver);
        let s = s
            .put(""@);
        let s = server::procedure::result_encode_declaration(s, tables, procedures[n - 1].1, ver);
        let s = s
            .put(""@);
        if server::procedure::needs_release(tables, procedures[n - 1].1) {
            let s = server::procedure::release_declaration(s, tables, procedures[n - 1].1, ver);
            s
                .put(""@)
        } else {
            s
        }
    }
}

/// The content of `procedure_xdr.c` of a version of the server: for each
/// procedure the decoder of its arguments, the encoder of its result and
/// the release where one is owed.
pub open spec fn server_procedures_wire(s: Sink, tables: Tables, version: Version) -> Sink {
    let s = s
        .put("#include \"procedures.h\""@)
        .put(""@);
    server_procedure_wire(s, version_procedures(version.procedures), version_procedures(version.procedures).len(), tables, version.name@)
}

fn write_server_procedures_wire<F: File>(handle: &Handle, file: &mut F, version: &Version)
    requires
        handle@.supports_version(*version),
    ensures
        final(file).sink() == server_procedures_wire(old(file).sink(), handle@, *version),
{
    emit(file, "#include \"procedures.h\"");
    emit(file, "");
    let ghost start = file.sink();
    let n = procedures_len(&version.procedures);
    let mut i: usize = 0;
    while i < n
        invariant
            n == version_procedures(version.procedures).len(),
            i <= n,
            handle@.supports_version(*version),
            file.sink() == server_procedure_wire(start, version_procedures(version.procedures), i as nat, handle@, version.name@),
        decreases n - i,
    {
        match procedures_entry(&version.procedures, i) {
            Some((_, procedure)) => {
                proof {
                    assert(handle@.supports_procedure(version_procedures(version.procedures)[i as int].1));
                    supported_procedure_printable(handle@, *procedure);
                }
                server::procedure::generate_procedure_arguments_decode_declaration(handle, file, procedure, version.name.as_str());
                emit(file, "");
                server::procedure::generate_procedure_result_encode_declaration(handle, file, procedure, version.name.as_str());
                emit(file, "");
                if server::procedure::procedure_need_release(handle, procedure) {
                    server::procedure::generate_procedure_release_declaration(handle, file, procedure, version.name.as_str());
                    emit(file, "");
                }
            },
            None => {},
        }
        i = i + 1;
    }
}

/// The sink with the handler stubs of the first `n` procedures of the
/// version `ver`.
pub open spec fn server_procedure_handlers(s: Sink, procedures: Seq<(Value, Procedure)>, n: nat, tables: Tables, ver: Seq<char>) -> Sink
    decreases n,
{
    if n == 0 || n > procedures.len() {
        s
    } else {
        let s = server_procedure_handlers(s, procedures, (n - 1) as nat, tables, ver);
        let s = server::procedure::handler_declaration(s, procedures[n - 1].1, ver);
        s
            .put(""@)
    }
}

/// The content of `procedure_handlers.c` of a version of the server.
pub open spec fn server_procedures_handlers(s: Sink, tables: Tables, version: Version) -> Sink {
    let s = s
        .put("#include \"procedures.h\""@)
        .put(""@);
    server_procedure_handlers(s, version_procedures(version.procedures), version_procedures(version.procedures).len(), tables, version.name@)
}

fn write_server_procedures_handlers<F: File>(handle: &Handle, file: &mut F, version: &Version)
    requires
        handle@.supports_version(*version),
    ensures
        final(file).sink() == server_procedures_handlers(old(file).sink(), handle@, *version),
{
    emit(file, "#include \"procedures.h\"");
    emit(file, "");
    let ghost start = file.sink();
    let n = procedures_len(&version.procedures);
    let mut i: usize = 0;
    while i < n
        invariant
            n == version_procedures(version.procedures).len(),
            i <= n,
            handle@.supports_version(*version),
            file.sink() == server_procedure_handlers(start, version_procedures(version.procedures), i as nat, handle@, version.name@),
        decreases n - i,
    {
        match procedures_entry(&version.procedures, i) {
            Some((_, procedure)) => {
                proof {
                    assert(handle@.supports_procedure(version_procedures(version.procedures)[i as int].1));
                    supported_procedure_printable(handle@, *procedure);
                }
                server::procedure::generate_procedure_handler_declaration(handle, file, procedure, version.name.as_str());
                emit(file, "");
            },
            None => {},
        }
        i = i + 1;
    }
}

/// The content of `clients/client.h`.
pub open spec fn client_common_header(s: Sink) -> Sink {
    let s = s
        .put("#include <linux/sunrpc/clnt.h>"@)
        .put(""@);
    client::misc::client_misc_definition(s)
}

fn write_client_common_header<F: File>(handle: &Handle, file: &mut F)
    ensures
        final(file).sink() == client_common_header(old(file).sink()),
{
    emit(file, "#include <linux/sunrpc/clnt.h>");
    emit(file, "");
    client::misc::generate_client_misc_definition(handle, file);
}

/// The content of `clients/client.c`.
pub open spec fn client_common_source(s: Sink) -> Sink {
    let s = s
        .put("#include \"client.h\""@)
        .put(""@);
    client::misc::client_misc_declaration(s)
}

fn write_client_common_source<F: File>(handle: &Handle, file: &mut F)
    ensures
        final(file).sink() == client_common_source(old(file).sink()),
{
    emit(file, "#include \"client.h\"");
    emit(file, "");
    client::misc::generate_client_misc_declaration(handle, file);
}

/// The content of `constants.h` of the client of a program.
pub open spec fn client_program_constants(s: Sink, program: Program) -> Sink {
    let s = s
        .put("#include \"../../constants.h\""@)
        .put(""@);
    client::program_constants(s, program)
}

fn write_client_program_constants<F: File>(handle: &Handle, file: &mut F, program: &Program)
    ensures
        final(file).sink() == client_program_constants(old(file).sink(), *program),
{
    emit(file, "#include \"../../constants.h\"");
    emit(file, "");
    client::generate_program_constants(handle, file, program);
}

/// The content of `authentication.h` of the client of a program.
pub open spec fn client_authentication_header(s: Sink) -> Sink {
    let s = s
        .put("#include <linux/sunrpc/clnt.h>"@)
        .put("#include <linux/sunrpc/xdr.h>"@)
        .put(""@);
    let s = client::auth_handle_size(s);
    let s = s
        .put(""@);
    client::auth_encode_definition(s)
}

fn write_client_authentication_header<F: File>(handle: &Handle, file: &mut F, program: &Program)
    ensures
        final(file).sink() == client_authentication_header(old(file).sink()),
{
    emit(file, "#include <linux/sunrpc/clnt.h>");
    emit(file, "#include <linux/sunrpc/xdr.h>");
    emit(file, "");
    client::generate_program_auth_handle_size(handle, file, program);
    emit(file, "");
    client::generate_program_auth_encode_definition(handle, file, program);
}

/// The content of `authentication.c` of the client of a program.
pub open spec fn client_authentication_source(s: Sink) -> Sink {
    let s = s
        .put("#include \"authentication.h\""@)
        .put(""@);
    client::auth_encode_declaration(s)
}

fn write_client_authentication_source<F: File>(handle: &Handle, file: &mut F, program: &Program)
    ensures
        final(file).sink() == client_authentication_source(old(file).sink()),
{
    emit(file, "#include \"authentication.h\"");
    emit(file, "");
    client::generate_program_auth_encode_declaration(handle, file, program);
}

/// The content of `program.c` of the client of a program.
pub open spec fn client_module(s: Sink, tables: Tables, program: Program) -> Sink {
    let s = s
        .put("#include <linux/module.h>"@)
        .put("#include <linux/kernel.h>"@)
        .put(""@)
        .put("#include <linux/sunrpc/clnt.h>"@)
        .put(""@)
        .put("#include \"../client.h\""@)
        .put("#include \"constants.h\""@)
        .put(""@);
    let s = version_includes(s, program_versions(program.versions), program_versions(program.versions).len());
    let s = s
        .put(""@)
        .put("MODULE_LICENSE(\"GPL\");"@)
        .put(""@);
    let s = client::program_version_array(s, program);
    let s = s
        .put(""@);
    let s = client::program_declaration(s, program);
    let s = s
        .put(""@);
    client::program_entrypoint(s, program)
}

fn write_client_module<F: File>(handle: &Handle, file: &mut F, program: &Program)
    ensures
        final(file).sink() == client_module(old(file).sink(), handle@, *program),
{
    emit(file, "#include <linux/module.h>");
    emit(file, "#include <linux/kernel.h>");
    emit(file, "");
    emit(file, "#include <linux/sunrpc/clnt.h>");
    emit(file, "");
    emit(file, "#include \"../client.h\"");
    emit(file, "#include \"constants.h\"");
    emit(file, "");
    let ghost start = file.sink();
    let n = versions_len(&program.versions);
    let mut i: usize = 0;
    while i < n
        invariant
            n == program_versions(program.versions).len(),
            i <= n,
            file.sink() == version_includes(start, program_versions(program.versions), i as nat),
        decreases n - i,
    {
        match versions_entry(&program.versions, i) {
            Some((_, version)) => {
                emit3(file, "#include \"", version.name.as_str(), "/version.h\"");
            },
            None => {},
        }
        i = i + 1;
    }
    emit(file, "");
    emit(file, "MODULE_LICENSE(\"GPL\");");
    emit(file, "");
    client::generate_program_version_array(handle, file, program);
    emit(file, "");
    client::generate_program_declaraion(handle, file, program);
    emit(file, "");
    client::generate_program_entrypoint(handle, file, program);
}

/// The content of `constants.h` of a version of the client.
pub open spec fn client_version_constants(s: Sink, version: Version) -> Sink {
    let s = s
        .put("#include \"../constants.h\""@)
        .put(""@);
    client::version::version_constants(s, version)
}

fn write_client_version_constants<F: File>(handle: &Handle, file: &mut F, version: &Version)
    ensures
        final(file).sink() == client_version_constants(old(file).sink(), *version),
{
    emit(file, "#include \"../constants.h\"");
    emit(file, "");
    client::version::generate_version_constants(handle, file, version);
}

/// The content of `version.h` of a version of the client.
pub open spec fn client_version_header(s: Sink, version: Version) -> Sink {
    let s = s
        .put("#include <linux/sunrpc/clnt.h>"@)
        .put(""@);
    let s = client::version::procedures_array_definition(s, version);
    client::version::version_definition(s, version)
}

fn write_client_version_header<F: File>(handle: &Handle, file: &mut F, version: &Version)
    ensures
        final(file).sink() == client_version_header(old(file).sink(), *version),
{
    emit(file, "#include <linux/sunrpc/clnt.h>");
    emit(file, "");
    client::version::generate_version_procedures_array_definition(handle, file, version);
    client::version::generate_version_definition(handle, file, version);
}

/// The content of `version.c` of a version of the client.
pub open spec fn client_version_source(s: Sink, tables: Tables, version: Version) -> Sink {
    let s = s
        .put("#include \"version.h\""@)
        .put("#include \"constants.h\""@)
        .put("#include \"../authentication.h\""@)
        .put(""@)
        .put("#include \"procedures.h\""@)
        .put(""@);
    let s = client::version::procedures_array_declaration(s, tables, version);
    let s = s
        .put(""@);
    client::version::version_declaration(s, version)
}

fn write_client_version_source<F: File>(handle: &Handle, file: &mut F, version: &Version)
    requires
        handle@.supports_version(*version),
    ensures
        final(file).sink() == client_version_source(old(file).sink(), handle@, *version),
{
    emit(file, "#include \"version.h\"");
    emit(file, "#include \"constants.h\"");
    emit(file, "#include \"../authentication.h\"");
    emit(file, "");
    emit(file, "#include \"procedures.h\"");
    emit(file, "");
    client::version::generate_version_procedures_array_declaration(handle, file, version);
    emit(file, "");
    client::version::generate_version_declaraion(handle, file, version);
}

/// The sink with what `procedures.h` of the client holds for the first `n`
/// procedures of the version `ver`.
pub open spec fn client_procedure_prototypes(s: Sink, procedures: Seq<(Value, Procedure)>, n: nat, tables: Tables, ver: Seq<char>) -> Sink
    decreases n,
{
    if n == 0 || n > procedures.len() {
        s
    } else {
        let s = client_procedure_prototypes(s, procedures, (n - 1) as nat, tables, ver);
        let s = argument_wrap(s, procedures[n - 1].1);
        let s = if procedures[n - 1].1.arguments@.len() > 1 {
            s
                .put(""@)
        } else {
            s
        };
        let s = client::procedure::arguments_encode_definition(s, procedures[n - 1].1, ver);
        let s = client::procedure::result_decode_definition(s, procedures[n - 1].1, ver);
        s
            .put(""@)
    }
}

/// The content of `procedures.h` of a version of the client: for each
/// procedure the structure that wraps its arguments, if it takes several,
/// and the prototypes of its wire code.
pub open spec fn client_procedures_header(s: Sink, tables: Tables, version: Version) -> Sink {
    let s = s
        .put("#include <linux/sunrpc/clnt.h>"@)
        .put("#include <linux/sunrpc/xdr.h>"@)
        .put(""@);
    client_procedure_prototypes(s, version_procedures(version.procedures), version_procedures(version.procedures).len(), tables, version.name@)
}

fn write_client_procedures_header<F: File>(handle: &Handle, file: &mut F, version: &Version)
    requires
        handle@.supports_version(*version),
    ensures
        final(file).sink() == client_procedures_header(old(file).sink(), handle@, *version),
{
    emit(file, "#include <linux/sunrpc/clnt.h>");
    emit(file, "#include <linux/sunrpc/xdr.h>");
    emit(file, "");
    let ghost start = file.sink();
    let n = procedures_len(&version.procedures);
    let mut i: usize = 0;
    while i < n
        invariant
            n == version_procedures(version.procedures).len(),
            i <= n,
            handle@.supports_version(*version),
            file.sink() == client_procedure_prototypes(start, version_procedures(version.procedures), i as nat, handle@, version.name@),
        decreases n - i,
    {
        match procedures_entry(&version.procedures, i) {
            Some((_, procedure)) => {
                proof {
                    assert(handle@.supports_procedure(version_procedures(version.procedures)[i as int].1));
                    supported_procedure_printable(handle@, *procedure);
                }
                if generate_argument_wrap(handle, file, procedure) {
                    emit(file, "");
                }
                client::procedure::generate_procedure_arguments_encode_definition(handle, file, procedure, version.name.as_str());
                client::procedure::generate_procedure_result_decode_definition(handle, file, procedure, version.name.as_str());
                emit(file, "");
            },
            None => {},
        }
        i = i + 1;
    }
}

/// The sink with the wire code of the first `n` procedures of the version
/// `ver` of the client of the program `prog`.
pub open spec fn client_procedure_wire(s: Sink, procedures: Seq<(Value, Procedure)>, n: nat, tables: Tables, ver: Seq<char>, prog: Seq<char>) -> Sink
    decreases n,
{
    if n == 0 || n > procedures.len() {
        s
    } else {
        let s = client_procedure_wire(s, procedures, (n - 1) as nat, tables, ver, prog);
        let s = client::procedure::arguments_encode_declaration(s, tables, procedures[n - 1].1, ver, prog);
        let s = s
            .put(""@);
        let s = client::procedure::result_decode_declaration(s, tables, procedures[n - 1].1, ver);
        s
            .put(""@)
    }
}

/// The content of `procedure_xdr.c` of a version of the client: for each
/// procedure the encoder of its arguments and the decoder of its result.
pub open spec fn client_procedures_wire(s: Sink, tables: Tables, version: Version, prog: Seq<char>) -> Sink {
    let s = s
        .put("#include \"procedures.h\""@)
        .put("#include \"../authentication.h\""@)
        .put("#include \"../../../types.h\""@)
        .put(""@);
    client_procedure_wire(s, version_procedures(version.procedures), version_procedures(version.procedures).len(), tables, version.name@, prog)
}

fn write_client_procedures_wire<F: File>(handle: &Handle, file: &mut F, version: &Version, prog: &str)
    requires
        handle@.supports_version(*version),
    ensures
        final(file).sink() == client_procedures_wire(old(file).sink(), handle@, *version, prog@),
{
    emit(file, "#include \"procedures.h\"");
    emit(file, "#include \"../authentication.h\"");
    emit(file, "#include \"../../../types.h\"");
    emit(file, "");
    let ghost start = file.sink();
    let n = procedures_len(&version.procedures);
    let mut i: usize = 0;
    while i < n
        invariant
            n == version_procedures(version.procedures).len(),
            i <= n,
            handle@.supports_version(*version),
            file.sink() == client_procedure_wire(start, version_procedures(version.procedures), i as nat, handle@, version.name@, prog@),
        decreases n - i,
    {
        match procedures_entry(&version.procedures, i) {
            Some((_, procedure)) => {
                proof {
                    assert(handle@.supports_procedure(version_procedures(version.procedures)[i as int].1));
                    supported_procedure_printable(handle@, *procedure);
                }
                client::procedure::generate_procedure_arguments_encode_declaration(handle, file, procedure, version.name.as_str(), prog);
                emit(file, "");
                client::procedure::generate_procedure_result_decode_declaration(handle, file, procedure, version.name.as_str());
                emit(file, "");
            },
            None => {},
        }
        i = i + 1;
    }
}

/// The sink with what `procedure_api.h` holds for the first `n` procedures
/// of the version `ver` of the client of the program `prog`.
pub open spec fn client_procedure_api_prototypes(s: Sink, procedures: Seq<(Value, Procedure)>, n: nat, tables: Tables, ver: Seq<char>, prog: Seq<char>) -> Sink
    decreases n,
{
    if n == 0 || n > procedures.len() {
        s
    } else {
        let s = client_procedure_api_prototypes(s, procedures, (n - 1) as nat, tables, ver, prog);
        let s = client::procedure::api_definition(s, procedures[n - 1].1, ver, prog);
        let s = client::procedure::release_definition(s, tables, procedures[n - 1].1, ver, prog);
        s
            .put(""@)
    }
}

/// The content of `procedure_api.h` of a version of the client: for each
/// procedure the prototype of its call wrapper and, where its result holds
/// dynamic memory, of the release of the result.
pub open spec fn client_api_header(s: Sink, tables: Tables, version: Version, prog: Seq<char>) -> Sink {
    let s = s
        .put("#include <linux/sunrpc/clnt.h>"@)
        .put("#include <linux/sunrpc/xdr.h>"@)
        .put(""@)
        .put("#include \"../../../types.h\""@)
        .put(""@);
    client_procedure_api_prototypes(s, version_procedures(version.procedures), version_procedures(version.procedures).len(), tables, version.name@, prog)
}

fn write_client_api_header<F: File>(handle: &Handle, file: &mut F, version: &Version, prog: &str)
    requires
        handle@.supports_version(*version),
    ensures
        final(file).sink() == client_api_header(old(file).sink(), handle@, *version, prog@),
{
    emit(file, "#include <linux/sunrpc/clnt.h>");
    emit(file, "#include <linux/sunrpc/xdr.h>");
    emit(file, "");
    emit(file, "#include \"../../../types.h\"");
    emit(file, "");
    let ghost start = file.sink();
    let n = procedures_len(&version.procedures);
    let mut i: usize = 0;
    while i < n
        invariant
            n == version_procedures(version.procedures).len(),
            i <= n,
            handle@.supports_version(*version),
            file.sink() == client_procedure_api_prototypes(start, version_procedures(version.procedures), i as nat, handle@, version.name@, prog@),
        decreases n - i,
    {
        match procedures_entry(&version.procedures, i) {
            Some((_, procedure)) => {
                proof {
                    assert(handle@.supports_procedure(version_procedures(version.procedures)[i as int].1));
                    supported_procedure_printable(handle@, *procedure);
                }
                client::procedure::generate_procedure_api_definition(handle, file, procedure, version.name.as_str(), prog);
                client::procedure::generate_procedure_release_definition(handle, file, procedure, version.name.as_str(), prog);
                emit(file, "");
            },
            None => {},
        }
        i = i + 1;
    }
}

/// The sink with the call wrappers of the first `n` procedures of the
/// version `ver` of the client of the program `prog`.
pub open spec fn client_procedure_api(s: Sink, procedures: Seq<(Value, Procedure)>, n: nat, tables: Tables, ver: Seq<char>, prog: Seq<char>) -> Sink
    decreases n,
{
    if n == 0 || n > procedures.len() {
        s
    } else {
        let s = client_procedure_api(s, procedures, (n - 1) as nat, tables, ver, prog);
        let s = client::procedure::api_declaration(s, procedures[n - 1].1, ver, prog);
        let s = s
            .put(""@);
        let s = client::procedure::release_declaration(s, tables, procedures[n - 1].1, ver, prog);
        if crate::rpc_generator::types::dynamic(tables, procedures[n - 1].1.return_type) {
            s
                .put(""@)
        } else {
            s
        }
    }
}

/// The content of `procedure_api.c` of a version of the client: for each
/// procedure its call wrapper and, where its result holds dynamic memory,
/// the release of the result.
pub open spec fn client_api_source(s: Sink, tables: Tables, version: Version, prog: Seq<char>) -> Sink {
    let s = s
        .put("#include \"procedure_api.h\""@)
        .put("#include \"procedures.h\""@)
        .put("#include \"version.h\""@)
        .put("#include \"constants.h\""@)
        .put("#include \"../../client.h\""@)
        .put(""@);
    client_procedure_api(s, version_procedures(version.procedures), version_procedures(version.procedures).len(), tables, version.name@, prog)
}

fn write_client_api_source<F: File>(handle: &Handle, file: &mut F, version: &Version, prog: &str)
    requires
        handle@.supports_version(*version),
    ensures
        final(file).sink() == client_api_source(old(file).sink(), handle@, *version, prog@),
{
    emit(file, "#include \"procedure_api.h\"");
    emit(file, "#include \"procedures.h\"");
    emit(file, "#include \"version.h\"");
    emit(file, "#include \"constants.h\"");
    emit(file, "#include \"../../client.h\"");
    emit(file, "");
    let ghost start = file.sink();
    let n = procedures_len(&version.procedures);
    let mut i: usize = 0;
    while i < n
        invariant
            n == version_procedures(version.procedures).len(),
            i <= n,
            handle@.supports_version(*version),
            file.sink() == client_procedure_api(start, version_procedures(version.procedures), i as nat, handle@, version.name@, prog@),
        decreases n - i,
    {
        match procedures_entry(&version.procedures, i) {
            Some((_, procedure)) => {
                proof {
                    assert(handle@.supports_procedure(version_procedures(version.procedures)[i as int].1));
                    supported_procedure_printable(handle@, *procedure);
                }
                client::procedure::generate_procedure_api_declaration(handle, file, procedure, version.name.as_str(), prog);
                emit(file, "");
                if client::procedure::generate_procedure_release_declaration(handle, file, procedure, version.name.as_str(), prog) {
                    emit(file, "");
                }
            },
            None => {},
        }
        i = i + 1;
    }
}

/// The content of the Makefile.
pub open spec fn make_content(s: Sink, tables: Tables) -> Sink {
    crate::rpc_generator::make::make_lines(s, tables)
}

fn write_make<F: File>(handle: &Handle, file: &mut F)
    requires
        handle@.programs.len() > 0,
    ensures
        final(file).sink() == make_content(old(file).sink(), handle@),
{
    crate::rpc_generator::make::generate_make(handle, file);
}

/// The files with `constants.h` written.
pub open spec fn constants_written(t: Seq<Written>, tables: Tables, cfg: Option<Config>) -> Seq<Written> {
    t
        .push(
            header_file(
                joined(path_of(cfg), "constants.h"@),
                constants_content(header_start(joined(path_of(cfg), "constants.h"@)), tables, cfg),
            ),
        )
}

fn generate_constants(cfg: &Option<Config>, handle: &Handle, tree: &mut Tree)
    ensures
        final(tree)@ == constants_written(old(tree)@, handle@, *cfg),
{
    let p = path(cfg);
    let p = join_path(p.as_str(), "constants.h");
    let mut file = HFile::new(p.clone()).unwrap();
    write_constants(handle, &mut file, cfg);
    tree.add_header(p, file);
}

/// The files with `types.h` written.
pub open spec fn types_written(t: Seq<Written>, tables: Tables, cfg: Option<Config>) -> Seq<Written> {
    t
        .push(
            header_file(
                joined(path_of(cfg), "types.h"@),
                types_content(header_start(joined(path_of(cfg), "types.h"@)), tables),
            ),
        )
}

fn generate_types(cfg: &Option<Config>, handle: &Handle, tree: &mut Tree)
    requires
        handle@.declarable(),
    ensures
        final(tree)@ == types_written(old(tree)@, handle@, *cfg),
{
    let p = path(cfg);
    let p = join_path(p.as_str(), "types.h");
    let mut file = HFile::new(p.clone()).unwrap();
    write_types(handle, &mut file);
    tree.add_header(p, file);
}

/// The files with what the servers share written.
pub open spec fn server_common_written(t: Seq<Written>, tables: Tables, cfg: Option<Config>) -> Seq<Written> {
    t
        .push(
            header_file(
                joined(joined(path_of(cfg), "servers"@), "common.h"@),
                server_common_header(header_start(joined(joined(path_of(cfg), "servers"@), "common.h"@))),
            ),
        )
        .push(plain_file(joined(joined(path_of(cfg), "servers"@), "common.c"@), server_common_source(Sink::fresh())))
}

fn generate_server_program_common(cfg: &Option<Config>, handle: &Handle, tree: &mut Tree)
    ensures
        final(tree)@ == server_common_written(old(tree)@, handle@, *cfg),
{
    {
        let p = path(cfg);
        let p = join_path(p.as_str(), "servers");
        let p = join_path(p.as_str(), "common.h");
        let mut file = HFile::new(p.clone()).unwrap();
        write_server_common_header(handle, &mut file);
        tree.add_header(p, file);
    }
    {
        let p = path(cfg);
        let p = join_path(p.as_str(), "servers");
        let p = join_path(p.as_str(), "common.c");
        let mut file = PlainFile::new(p.clone());
        write_server_common_source(handle, &mut file);
        tree.add_plain(p, file);
    }
}

/// The files with `constants.h` of the server of a program written.
pub open spec fn server_program_constants_written(t: Seq<Written>, tables: Tables, cfg: Option<Config>, program: Program) -> Seq<Written> {
    t
        .push(
            header_file(
                joined(joined(joined(path_of(cfg), "servers"@), program.name@), "constants.h"@),
                server_program_constants(header_start(joined(joined(joined(path_of(cfg), "servers"@), program.name@), "constants.h"@)), program),
            ),
        )
}

fn generate_server_program_constants(cfg: &Option<Config>, handle: &Handle, program: &Program, tree: &mut Tree)
    ensures
        final(tree)@ == server_program_constants_written(old(tree)@, handle@, *cfg, *program),
{
    let p = path(cfg);
    let p = join_path(p.as_str(), "servers");
    let p = join_path(p.as_str(), program.name.as_str());
    let p = join_path(p.as_str(), "constants.h");
    let mut file = HFile::new(p.clone()).unwrap();
    write_server_program_constants(handle, &mut file, program);
    tree.add_header(p, file);
}

/// The files with the authentication hook of the server of a program
/// written.
pub open spec fn server_program_authentication_written(t: Seq<Written>, tables: Tables, cfg: Option<Config>, program: Program) -> Seq<Written> {
    t
        .push(
            header_file(
                joined(joined(joined(path_of(cfg), "servers"@), program.name@), "authentication.h"@),
                server_authentication_header(header_start(joined(joined(joined(path_of(cfg), "servers"@), program.name@), "authentication.h"@))),
            ),
        )
        .push(plain_file(joined(joined(joined(path_of(cfg), "servers"@), program.name@), "authentication.c"@), server_authentication_source(Sink::fresh())))
}

fn generate_server_program_authentication(cfg: &Option<Config>, handle: &Handle, program: &Program, tree: &mut Tree)
    ensures
        final(tree)@ == server_program_authentication_written(old(tree)@, handle@, *cfg, *program),
{
    {
        let p = path(cfg);
        let p = join_path(p.as_str(), "servers");
        let p = join_path(p.as_str(), program.name.as_str());
        let p = join_path(p.as_str(), "authentication.h");
        let mut file = HFile::new(p.clone()).unwrap();
        write_server_authentication_header(handle, &mut file, program);
        tree.add_header(p, file);
    }
    {
        let p = path(cfg);
        let p = join_path(p.as_str(), "servers");
        let p = join_path(p.as_str(), program.name.as_str());
        let p = join_path(p.as_str(), "authentication.c");
        let mut file = PlainFile::new(p.clone());
        write_server_authentication_source(handle, &mut file, program);
        tree.add_plain(p, file);
    }
}

/// The files with `program.c` of the server of a program written.
pub open spec fn server_program_module_written(t: Seq<Written>, tables: Tables, cfg: Option<Config>, program: Program) -> Seq<Written> {
    t
        .push(plain_file(joined(joined(joined(path_of(cfg), "servers"@), program.name@), "program.c"@), server_module(Sink::fresh(), tables, program)))
}

fn generate_server_program_module(cfg: &Option<Config>, handle: &Handle, program: &Program, tree: &mut Tree)
    requires
        versions_numbered(handle@, program_versions(program.versions)),
    ensures
        final(tree)@ == server_program_module_written(old(tree)@, handle@, *cfg, *program),
{
    let p = path(cfg);
    let p = join_path(p.as_str(), "servers");
    let p = join_path(p.as_str(), program.name.as_str());
    let p = join_path(p.as_str(), "program.c");
    let mut file = PlainFile::new(p.clone());
    write_server_module(handle, &mut file, program);
    tree.add_plain(p, file);
}

/// The files with `constants.h` of a version of the server written.
pub open spec fn server_version_constants_written(t: Seq<Written>, tables: Tables, cfg: Option<Config>, version: Version, prog: Seq<char>) -> Seq<Written> {
    t
        .push(
            header_file(
                joined(joined(joined(joined(path_of(cfg), "servers"@), prog), version.name@), "constants.h"@),
                server_version_constants(header_start(joined(joined(joined(joined(path_of(cfg), "servers"@), prog), version.name@), "constants.h"@)), version),
            ),
        )
}

fn generate_server_version_constants(cfg: &Option<Config>, handle: &Handle, version: &Version, prog: &str, tree: &mut Tree)
    ensures
        final(tree)@ == server_version_constants_written(old(tree)@, handle@, *cfg, *version, prog@),
{
    let p = path(cfg);
    let p = join_path(p.as_str(), "servers");
    let p = join_path(p.as_str(), prog);
    let p = join_path(p.as_str(), version.name.as_str());
    let p = join_path(p.as_str(), "constants.h");
    let mut file = HFile::new(p.clone()).unwrap();
    write_server_version_constants(handle, &mut file, version);
    tree.add_header(p, file);
}

/// The files with the descriptor of a version of the server written.
pub open spec fn server_version_definition_written(t: Seq<Written>, tables: Tables, cfg: Option<Config>, version: Version, prog: Seq<char>) -> Seq<Written> {
    t
        .push(
            header_file(
                joined(joined(joined(joined(path_of(cfg), "servers"@), prog), version.name@), "version.h"@),
                server_version_header(header_start(joined(joined(joined(joined(path_of(cfg), "servers"@), prog), version.name@), "version.h"@)), version),
            ),
        )
        .push(plain_file(joined(joined(joined(joined(path_of(cfg), "servers"@), prog), version.name@), "version.c"@), server_version_source(Sink::fresh(), tables, version)))
}

fn generate_server_version_definition(cfg: &Option<Config>, handle: &Handle, version: &Version, prog: &str, tree: &mut Tree)
    requires
        handle@.supports_version(*version),
    ensures
        final(tree)@ == server_version_definition_written(old(tree)@, handle@, *cfg, *version, prog@),
{
    {
        let p = path(cfg);
        let p = join_path(p.as_str(), "servers");
        let p = join_path(p.as_str(), prog);
        let p = join_path(p.as_str(), version.name.as_str());
        let p = join_path(p.as_str(), "version.h");
        let mut file = HFile::new(p.clone()).unwrap();
        write_server_version_header(handle, &mut file, version);
        tree.add_header(p, file);
    }
    {
        let p = path(cfg);
        let p = join_path(p.as_str(), "servers");
        let p = join_path(p.as_str(), prog);
        let p = join_path(p.as_str(), version.name.as_str());
        let p = join_path(p.as_str(), "version.c");
        let mut file = PlainFile::new(p.clone());
        write_server_version_source(handle, &mut file, version);
        tree.add_plain(p, file);
    }
}

/// The files with the procedures of a version of the server written: the
/// prototypes, the wire code and the handler stubs.
pub open spec fn server_version_procedures_written(t: Seq<Written>, tables: Tables, cfg: Option<Config>, version: Version, prog: Seq<char>) -> Seq<Written> {
    t
        .push(
            header_file(
                joined(joined(joined(joined(path_of(cfg), "servers"@), prog), version.name@), "procedures.h"@),
                server_procedures_header(header_start(joined(joined(joined(joined(path_of(cfg), "servers"@), prog), version.name@), "procedures.h"@)), tables, version),
            ),
        )
        .push(plain_file(joined(joined(joined(joined(path_of(cfg), "servers"@), prog), version.name@), "procedure_xdr.c"@), server_procedures_wire(Sink::fresh(), tables, version)))
        .push(plain_file(joined(joined(joined(joined(path_of(cfg), "servers"@), prog), version.name@), "procedure_handlers.c"@), server_procedures_handlers(Sink::fresh(), tables, version)))
}

fn generate_server_version_procedures(cfg: &Option<Config>, handle: &Handle, version: &Version, prog: &str, tree: &mut Tree)
    requires
        handle@.supports_version(*version),
    ensures
        final(tree)@ == server_version_procedures_written(old(tree)@, handle@, *cfg, *version, prog@),
{
    {
        let p = path(cfg);
        let p = join_path(p.as_str(), "servers");
        let p = join_path(p.as_str(), prog);
        let p = join_path(p.as_str(), version.name.as_str());
        let p = join_path(p.as_str(), "procedures.h");
        let mut file = HFile::new(p.clone()).unwrap();
        write_server_procedures_header(handle, &mut file, version);
        tree.add_header(p, file);
    }
    {
        let p = path(cfg);
        let p = join_path(p.as_str(), "servers");
        let p = join_path(p.as_str(), prog);
        let p = join_path(p.as_str(), version.name.as_str());
        let p = join_path(p.as_str(), "procedure_xdr.c");
        let mut file = PlainFile::new(p.clone());
        write_server_procedures_wire(handle, &mut file, version);
        tree.add_plain(p, file);
    }
    {
        let p = path(cfg);
        let p = join_path(p.as_str(), "servers");
        let p = join_path(p.as_str(), prog);
        let p = join_path(p.as_str(), version.name.as_str());
        let p = join_path(p.as_str(), "procedure_handlers.c");
        let mut file = PlainFile::new(p.clone());
        write_server_procedures_handlers(handle, &mut file, version);
        tree.add_plain(p, file);
    }
}

/// The files with the first `n` versions of the server of the program
/// `prog` written.
pub open spec fn server_versions_written(
    t: Seq<Written>,
    tables: Tables,
    cfg: Option<Config>,
    versions: Seq<(Value, Version)>,
    n: nat,
    prog: Seq<char>,
) -> Seq<Written>
    decreases n,
{
    if n == 0 || n > versions.len() {
        t
    } else {
        let t = server_versions_written(t, tables, cfg, versions, (n - 1) as nat, prog);
        let t = server_version_constants_written(t, tables, cfg, versions[n - 1].1, prog);
        let t = server_version_definition_written(t, tables, cfg, versions[n - 1].1, prog);
        server_version_procedures_written(t, tables, cfg, versions[n - 1].1, prog)
    }
}

/// The files with every version of the server of a program written.
pub open spec fn server_program_versions_written(
    t: Seq<Written>,
    tables: Tables,
    cfg: Option<Config>,
    program: Program,
) -> Seq<Written> {
    server_versions_written(
        t,
        tables,
        cfg,
        program_versions(program.versions),
        program_versions(program.versions).len(),
        program.name@,
    )
}

fn generate_server_program_versions(cfg: &Option<Config>, handle: &Handle, program: &Program, tree: &mut Tree)
    requires
        handle@.supports_program(*program),
    ensures
        final(tree)@ == server_program_versions_written(old(tree)@, handle@, *cfg, *program),
{
    let n = versions_len(&program.versions);
    let mut i: usize = 0;
    while i < n
        invariant
            n == program_versions(program.versions).len(),
            i <= n,
            handle@.supports_program(*program),
            tree@ == server_versions_written(
                old(tree)@,
                handle@,
                *cfg,
                program_versions(program.versions),
                i as nat,
                program.name@,
            ),
        decreases n - i,
    {
        match versions_entry(&program.versions, i) {
            Some((_, version)) => {
                assert(handle@.supports_version(program_versions(program.versions)[i as int].1));
                generate_server_version_constants(cfg, handle, version, program.name.as_str(), tree);
                generate_server_version_definition(cfg, handle, version, program.name.as_str(), tree);
                generate_server_version_procedures(cfg, handle, version, program.name.as_str(), tree);
            },
            None => {},
        }
        i = i + 1;
    }
}

/// The files with the servers of the first `n` programs written.
pub open spec fn server_programs_written(
    t: Seq<Written>,
    tables: Tables,
    cfg: Option<Config>,
    n: nat,
) -> Seq<Written>
    decreases n,
{
    if n == 0 || n > tables.programs.len() {
        t
    } else {
        let t = server_programs_written(t, tables, cfg, (n - 1) as nat);
        let t = server_program_constants_written(t, tables, cfg, tables.programs[n - 1].1);
        let t = server_program_authentication_written(t, tables, cfg, tables.programs[n - 1].1);
        let t = server_program_module_written(t, tables, cfg, tables.programs[n - 1].1);
        server_program_versions_written(t, tables, cfg, tables.programs[n - 1].1)
    }
}

/// The files with the servers written: what they share, then for each
/// program its constants, its authentication hook, its module and its
/// versions.
pub open spec fn servers_written(t: Seq<Written>, tables: Tables, cfg: Option<Config>) -> Seq<Written> {
    server_programs_written(server_common_written(t, tables, cfg), tables, cfg, tables.programs.len())
}

fn generate_servers(cfg: &Option<Config>, handle: &Handle, tree: &mut Tree)
    requires
        programs_supported(handle@),
            programs_numbered(handle@),
    ensures
        final(tree)@ == servers_written(old(tree)@, handle@, *cfg),
{
    generate_server_program_common(cfg, handle, tree);
    let ghost start = tree@;
    let n = programs_len(&handle.programs);
    let mut i: usize = 0;
    while i < n
        invariant
            n == handle@.programs.len(),
            i <= n,
            programs_supported(handle@),
            programs_numbered(handle@),
            tree@ == server_programs_written(start, handle@, *cfg, i as nat),
        decreases n - i,
    {
        match programs_entry(&handle.programs, i) {
            Some((_, program)) => {
                assert(handle@.supports_program(handle@.programs[i as int].1));
                generate_server_program_constants(cfg, handle, program, tree);
                generate_server_program_authentication(cfg, handle, program, tree);
                generate_server_program_module(cfg, handle, program, tree);
                generate_server_program_versions(cfg, handle, program, tree);
            },
            None => {},
        }
        i = i + 1;
    }
}

/// The files with what the clients share written.
pub open spec fn client_common_written(t: Seq<Written>, tables: Tables, cfg: Option<Config>) -> Seq<Written> {
    t
        .push(
            header_file(
                joined(joined(path_of(cfg), "clients"@), "client.h"@),
                client_common_header(header_start(joined(joined(path_of(cfg), "clients"@), "client.h"@))),
            ),
        )
        .push(plain_file(joined(joined(path_of(cfg), "clients"@), "client.c"@), client_common_source(Sink::fresh())))
}

fn generate_client_common(cfg: &Option<Config>, handle: &Handle, tree: &mut Tree)
    ensures
        final(tree)@ == client_common_written(old(tree)@, handle@, *cfg),
{
    {
        let p = path(cfg);
        let p = join_path(p.as_str(), "clients");
        let p = join_path(p.as_str(), "client.h");
        let mut file = HFile::new(p.clone()).unwrap();
        write_client_common_header(handle, &mut file);
        tree.add_header(p, file);
    }
    {
        let p = path(cfg);
        let p = join_path(p.as_str(), "clients");
        let p = join_path(p.as_str(), "client.c");
        let mut file = PlainFile::new(p.clone());
        write_client_common_source(handle, &mut file);
        tree.add_plain(p, file);
    }
}

/// The files with `constants.h` of the client of a program written.
pub open spec fn client_program_constants_written(t: Seq<Written>, tables: Tables, cfg: Option<Config>, program: Program) -> Seq<Written> {
    t
        .push(
            header_file(
                joined(joined(joined(path_of(cfg), "clients"@), program.name@), "constants.h"@),
                client_program_constants(header_start(joined(joined(joined(path_of(cfg), "clients"@), program.name@), "constants.h"@)), program),
            ),
        )
}

fn generate_client_program_constants(cfg: &Option<Config>, handle: &Handle, program: &Program, tree: &mut Tree)
    ensures
        final(tree)@ == client_program_constants_written(old(tree)@, handle@, *cfg, *program),
{
    let p = path(cfg);
    let p = join_path(p.as_str(), "clients");
    let p = join_path(p.as_str(), program.name.as_str());
    let p = join_path(p.as_str(), "constants.h");
    let mut file = HFile::new(p.clone()).unwrap();
    write_client_program_constants(handle, &mut file, program);
    tree.add_header(p, file);
}

/// The files with the authentication hook of the client of a program
/// written.
pub open spec fn client_program_authentication_written(t: Seq<Written>, tables: Tables, cfg: Option<Config>, program: Program) -> Seq<Written> {
    t
        .push(
            header_file(
                joined(joined(joined(path_of(cfg), "clients"@), program.name@), "authentication.h"@),
                client_authentication_header(header_start(joined(joined(joined(path_of(cfg), "clients"@), program.name@), "authentication.h"@))),
            ),
        )
        .push(plain_file(joined(joined(joined(path_of(cfg), "clients"@), program.name@), "authentication.c"@), client_authentication_source(Sink::fresh())))
}

fn generate_client_program_authentication(cfg: &Option<Config>, handle: &Handle, program: &Program, tree: &mut Tree)
    ensures
        final(tree)@ == client_program_authentication_written(old(tree)@, handle@, *cfg, *program),
{
    {
        let p = path(cfg);
        let p = join_path(p.as_str(), "clients");
        let p = join_path(p.as_str(), program.name.as_str());
        let p = join_path(p.as_str(), "authentication.h");
        let mut file = HFile::new(p.clone()).unwrap();
        write_client_authentication_header(handle, &mut file, program);
        tree.add_header(p, file);
    }
    {
        let p = path(cfg);
        let p = join_path(p.as_str(), "clients");
        let p = join_path(p.as_str(), program.name.as_str());
        let p = join_path(p.as_str(), "authentication.c");
        let mut file = PlainFile::new(p.clone());
        write_client_authentication_source(handle, &mut file, program);
        tree.add_plain(p, file);
    }
}

/// The files with `program.c` of the client of a program written.
pub open spec fn client_program_module_written(t: Seq<Written>, tables: Tables, cfg: Option<Config>, program: Program) -> Seq<Written> {
    t
        .push(plain_file(joined(joined(joined(path_of(cfg), "clients"@), program.name@), "program.c"@), client_module(Sink::fresh(), tables, program)))
}

fn generate_client_program_module(cfg: &Option<Config>, handle: &Handle, program: &Program, tree: &mut Tree)
    ensures
        final(tree)@ == client_program_module_written(old(tree)@, handle@, *cfg, *program),
{
    let p = path(cfg);
    let p = join_path(p.as_str(), "clients");
    let p = join_path(p.as_str(), program.name.as_str());
    let p = join_path(p.as_str(), "program.c");
    let mut file = PlainFile::new(p.clone());
    write_client_module(handle, &mut file, program);
    tree.add_plain(p, file);
}

/// The files with `constants.h` of a version of the client written.
pub open spec fn client_version_constants_written(t: Seq<Written>, tables: Tables, cfg: Option<Config>, version: Version, prog: Seq<char>) -> Seq<Written> {
    t
        .push(
            header_file(
                joined(joined(joined(joined(path_of(cfg), "clients"@), prog), version.name@), "constants.h"@),
                client_version_constants(header_start(joined(joined(joined(joined(path_of(cfg), "clients"@), prog), version.name@), "constants.h"@)), version),
            ),
        )
}

fn generate_client_version_constants(cfg: &Option<Config>, handle: &Handle, version: &Version, prog: &str, tree: &mut Tree)
    ensures
        final(tree)@ == client_version_constants_written(old(tree)@, handle@, *cfg, *version, prog@),
{
    let p = path(cfg);
    let p = join_path(p.as_str(), "clients");
    let p = join_path(p.as_str(), prog);
    let p = join_path(p.as_str(), version.name.as_str());
    let p = join_path(p.as_str(), "constants.h");
    let mut file = HFile::new(p.clone()).unwrap();
    write_client_version_constants(handle, &mut file, version);
    tree.add_header(p, file);
}

/// The files with the descriptor of a version of the client written.
pub open spec fn client_version_definition_written(t: Seq<Written>, tables: Tables, cfg: Option<Config>, version: Version, prog: Seq<char>) -> Seq<Written> {
    t
        .push(
            header_file(
                joined(joined(joined(joined(path_of(cfg), "clients"@), prog), version.name@), "version.h"@),
                client_version_header(header_start(joined(joined(joined(joined(path_of(cfg), "clients"@), prog), version.name@), "version.h"@)), version),
            ),
        )
        .push(plain_file(joined(joined(joined(joined(path_of(cfg), "clients"@), prog), version.name@), "version.c"@), client_version_source(Sink::fresh(), tables, version)))
}

fn generate_client_version_definition(cfg: &Option<Config>, handle: &Handle, version: &Version, prog: &str, tree: &mut Tree)
    requires
        handle@.supports_version(*version),
    ensures
        final(tree)@ == client_version_definition_written(old(tree)@, handle@, *cfg, *version, prog@),
{
    {
        let p = path(cfg);
        let p = join_path(p.as_str(), "clients");
        let p = join_path(p.as_str(), prog);
        let p = join_path(p.as_str(), version.name.as_str());
        let p = join_path(p.as_str(), "version.h");
        let mut file = HFile::new(p.clone()).unwrap();
        write_client_version_header(handle, &mut file, version);
        tree.add_header(p, file);
    }
    {
        let p = path(cfg);
        let p = join_path(p.as_str(), "clients");
        let p = join_path(p.as_str(), prog);
        let p = join_path(p.as_str(), version.name.as_str());
        let p = join_path(p.as_str(), "version.c");
        let mut file = PlainFile::new(p.clone());
        write_client_version_source(handle, &mut file, version);
        tree.add_plain(p, file);
    }
}

/// The files with the procedures of a version of the client written: the
/// prototypes, the wire code and the call wrappers.
pub open spec fn client_version_procedures_written(t: Seq<Written>, tables: Tables, cfg: Option<Config>, version: Version, prog: Seq<char>) -> Seq<Written> {
    t
        .push(
            header_file(
                joined(joined(joined(joined(path_of(cfg), "clients"@), prog), version.name@), "procedures.h"@),
                client_procedures_header(header_start(joined(joined(joined(joined(path_of(cfg), "clients"@), prog), version.name@), "procedures.h"@)), tables, version),
            ),
        )
        .push(plain_file(joined(joined(joined(joined(path_of(cfg), "clients"@), prog), version.name@), "procedure_xdr.c"@), client_procedures_wire(Sink::fresh(), tables, version, prog)))
        .push(
            header_file(
                joined(joined(joined(joined(path_of(cfg), "clients"@), prog), version.name@), "procedure_api.h"@),
                client_api_header(header_start(joined(joined(joined(joined(path_of(cfg), "clients"@), prog), version.name@), "procedure_api.h"@)), tables, version, prog),
            ),
        )
        .push(plain_file(joined(joined(joined(joined(path_of(cfg), "clients"@), prog), version.name@), "procedure_api.c"@), client_api_source(Sink::fresh(), tables, version, prog)))
}

fn generate_client_version_procedures(cfg: &Option<Config>, handle: &Handle, version: &Version, prog: &str, tree: &mut Tree)
    requires
        handle@.supports_version(*version),
    ensures
        final(tree)@ == client_version_procedures_written(old(tree)@, handle@, *cfg, *version, prog@),
{
    {
        let p = path(cfg);
        let p = join_path(p.as_str(), "clients");
        let p = join_path(p.as_str(), prog);
        let p = join_path(p.as_str(), version.name.as_str());
        let p = join_path(p.as_str(), "procedures.h");
        let mut file = HFile::new(p.clone()).unwrap();
        write_client_procedures_header(handle, &mut file, version);
        tree.add_header(p, file);
    }
    {
        let p = path(cfg);
        let p = join_path(p.as_str(), "clients");
        let p = join_path(p.as_str(), prog);
        let p = join_path(p.as_str(), version.name.as_str());
        let p = join_path(p.as_str(), "procedure_xdr.c");
        let mut file = PlainFile::new(p.clone());
        write_client_procedures_wire(handle, &mut file, version, prog);
        tree.add_plain(p, file);
    }
    {
        let p = path(cfg);
        let p = join_path(p.as_str(), "clients");
        let p = join_path(p.as_str(), prog);
        let p = join_path(p.as_str(), version.name.as_str());
        let p = join_path(p.as_str(), "procedure_api.h");
        let mut file = HFile::new(p.clone()).unwrap();
        write_client_api_header(handle, &mut file, version, prog);
        tree.add_header(p, file);
    }
    {
        let p = path(cfg);
        let p = join_path(p.as_str(), "clients");
        let p = join_path(p.as_str(), prog);
        let p = join_path(p.as_str(), version.name.as_str());
        let p = join_path(p.as_str(), "procedure_api.c");
        let mut file = PlainFile::new(p.clone());
        write_client_api_source(handle, &mut file, version, prog);
        tree.add_plain(p, file);
    }
}

/// The files with the first `n` versions of the client of the program
/// `prog` written.
pub open spec fn client_versions_written(
    t: Seq<Written>,
    tables: Tables,
    cfg: Option<Config>,
    versions: Seq<(Value, Version)>,
    n: nat,
    prog: Seq<char>,
) -> Seq<Written>
    decreases n,
{
    if n == 0 || n > versions.len() {
        t
    } else {
        let t = client_versions_written(t, tables, cfg, versions, (n - 1) as nat, prog);
        let t = client_version_constants_written(t, tables, cfg, versions[n - 1].1, prog);
        let t = client_version_definition_written(t, tables, cfg, versions[n - 1].1, prog);
        client_version_procedures_written(t, tables, cfg, versions[n - 1].1, prog)
    }
}

/// The files with every version of the client of a program written.
pub open spec fn client_program_versions_written(
    t: Seq<Written>,
    tables: Tables,
    cfg: Option<Config>,
    program: Program,
) -> Seq<Written> {
    client_versions_written(
        t,
        tables,
        cfg,
        program_versions(program.versions),
        program_versions(program.versions).len(),
        program.name@,
    )
}

fn generate_client_program_versions(cfg: &Option<Config>, handle: &Handle, program: &Program, tree: &mut Tree)
    requires
        handle@.supports_program(*program),
    ensures
        final(tree)@ == client_program_versions_written(old(tree)@, handle@, *cfg, *program),
{
    let n = versions_len(&program.versions);
    let mut i: usize = 0;
    while i < n
        invariant
            n == program_versions(program.versions).len(),
            i <= n,
            handle@.supports_program(*program),
            tree@ == client_versions_written(
                old(tree)@,
                handle@,
                *cfg,
                program_versions(program.versions),
                i as nat,
                program.name@,
            ),
        decreases n - i,
    {
        match versions_entry(&program.versions, i) {
            Some((_, version)) => {
                assert(handle@.supports_version(program_versions(program.versions)[i as int].1));
                generate_client_version_constants(cfg, handle, version, program.name.as_str(), tree);
                generate_client_version_definition(cfg, handle, version, program.name.as_str(), tree);
                generate_client_version_procedures(cfg, handle, version, program.name.as_str(), tree);
            },
            None => {},
        }
        i = i + 1;
    }
}

/// The files with the clients of the first `n` programs written.
pub open spec fn client_programs_written(
    t: Seq<Written>,
    tables: Tables,
    cfg: Option<Config>,
    n: nat,
) -> Seq<Written>
    decreases n,
{
    if n == 0 || n > tables.programs.len() {
        t
    } else {
        let t = client_programs_written(t, tables, cfg, (n - 1) as nat);
        let t = client_program_constants_written(t, tables, cfg, tables.programs[n - 1].1);
        let t = client_program_authentication_written(t, tables, cfg, tables.programs[n - 1].1);
        let t = client_program_module_written(t, tables, cfg, tables.programs[n - 1].1);
        client_program_versions_written(t, tables, cfg, tables.programs[n - 1].1)
    }
}

/// The files with the clients written: what they share, then for each
/// program its constants, its authentication hook, its module and its
/// versions.
pub open spec fn clients_written(t: Seq<Written>, tables: Tables, cfg: Option<Config>) -> Seq<Written> {
    client_programs_written(client_common_written(t, tables, cfg), tables, cfg, tables.programs.len())
}

fn generate_clients(cfg: &Option<Config>, handle: &Handle, tree: &mut Tree)
    requires
        programs_supported(handle@),
    ensures
        final(tree)@ == clients_written(old(tree)@, handle@, *cfg),
{
    generate_client_common(cfg, handle, tree);
    let ghost start = tree@;
    let n = programs_len(&handle.programs);
    let mut i: usize = 0;
    while i < n
        invariant
            n == handle@.programs.len(),
            i <= n,
            programs_supported(handle@),
            tree@ == client_programs_written(start, handle@, *cfg, i as nat),
        decreases n - i,
    {
        match programs_entry(&handle.programs, i) {
            Some((_, program)) => {
                assert(handle@.supports_program(handle@.programs[i as int].1));
                generate_client_program_constants(cfg, handle, program, tree);
                generate_client_program_authentication(cfg, handle, program, tree);
                generate_client_program_module(cfg, handle, program, tree);
                generate_client_program_versions(cfg, handle, program, tree);
            },
            None => {},
        }
        i = i + 1;
    }
}

/// The files with the Makefile written.
pub open spec fn make_written(t: Seq<Written>, tables: Tables, cfg: Option<Config>) -> Seq<Written> {
    t
        .push(plain_file(joined(path_of(cfg), "Makefile"@), make_content(Sink::fresh(), tables)))
}

fn generate_make(cfg: &Option<Config>, handle: &Handle, tree: &mut Tree)
    requires
        handle@.programs.len() > 0,
    ensures
        final(tree)@ == make_written(old(tree)@, handle@, *cfg),
{
    let p = path(cfg);
    let p = join_path(p.as_str(), "Makefile");
    let mut file = PlainFile::new(p.clone());
    write_make(handle, &mut file);
    tree.add_plain(p, file);
}

/// The sources of a module, in the order of their writing: the constants
/// and the types, the servers, the clients, and the Makefile.
pub open spec fn generated(tables: Tables, cfg: Option<Config>) -> Seq<Written> {
    make_written(
        clients_written(
            servers_written(
                types_written(constants_written(Seq::empty(), tables, cfg), tables, cfg),
                tables,
                cfg,
            ),
            tables,
            cfg,
        ),
        tables,
        cfg,
    )
}

fn check_programs_supported(handle: &Handle) -> (ok: bool)
    ensures
        ok == programs_supported(handle@),
{
    let n = programs_len(&handle.programs);
    let mut i: usize = 0;
    while i < n
        invariant
            n == handle@.programs.len(),
            i <= n,
            forall|j: int| 0 <= j < i ==> handle@.supports_program((#[trigger] handle@.programs[j]).1),
        decreases n - i,
    {
        match programs_entry(&handle.programs, i) {
            Some((_, program)) => {
                if !handle.supports_program(program) {
                    assert(!handle@.supports_program(handle@.programs[i as int].1));
                    return false;
                }
            },
            None => {},
        }
        i = i + 1;
    }
    true
}

fn check_versions_numbered(handle: &Handle, program: &Program) -> (ok: bool)
    ensures
        ok == versions_numbered(handle@, program_versions(program.versions)),
{
    let n = versions_len(&program.versions);
    let mut i: usize = 0;
    while i < n
        invariant
            n == program_versions(program.versions).len(),
            i <= n,
            forall|j: int|
                0 <= j < i ==> crate::rpc_generator::misc::number(
                    handle@,
                    (#[trigger] program_versions(program.versions)[j]).0,
                ) is Some,
        decreases n - i,
    {
        match versions_entry(&program.versions, i) {
            Some((value, _)) => {
                if value_number(handle, value).is_none() {
                    assert(crate::rpc_generator::misc::number(
                        handle@,
                        program_versions(program.versions)[i as int].0,
                    ) is None);
                    return false;
                }
            },
            None => {},
        }
        i = i + 1;
    }
    true
}

fn check_programs_numbered(handle: &Handle) -> (ok: bool)
    ensures
        ok == programs_numbered(handle@),
{
    let n = programs_len(&handle.programs);
    let mut i: usize = 0;
    while i < n
        invariant
            n == handle@.programs.len(),
            i <= n,
            forall|j: int|
                0 <= j < i ==> versions_numbered(
                    handle@,
                    program_versions((#[trigger] handle@.programs[j]).1.versions),
                ),
        decreases n - i,
    {
        match programs_entry(&handle.programs, i) {
            Some((_, program)) => {
                if !check_versions_numbered(handle, program) {
                    assert(!versions_numbered(
                        handle@,
                        program_versions(handle@.programs[i as int].1.versions),
                    ));
                    return false;
                }
            },
            None => {},
        }
        i = i + 1;
    }
    true
}

/// Says what stands against writing the sources of the module of a
/// handle.
pub fn check(handle: &Handle) -> (found: Option<Error>)
    ensures
        found == refusal(handle@),
{
    if !handle.declarable() {
        Some(Error::UnprintableType)
    } else if !check_programs_supported(handle) {
        Some(Error::UnsupportedProcedure)
    } else if !check_programs_numbered(handle) {
        Some(Error::UnknownVersionNumber)
    } else if programs_len(&handle.programs) == 0 {
        Some(Error::NoProgram)
    } else {
        None
    }
}

/// Writes the sources of the module that the definitions make up, unless
/// something stands against it.
pub fn generate(definitions: Vec<Definition>, cfg: Option<Config>) -> (result: Result<Tree, Error>)
    ensures
        match result {
            Ok(tree) => refusal(Tables::filed_all(definitions@, definitions@.len())) is None && tree@
                == generated(Tables::filed_all(definitions@, definitions@.len()), cfg),
            Err(error) => refusal(Tables::filed_all(definitions@, definitions@.len())) == Some(error),
        },
{
    let handle = Handle::from_iter(definitions);
    match check(&handle) {
        Some(error) => Err(error),
        None => {
            let mut tree = Tree::new();
            generate_constants(&cfg, &handle, &mut tree);
            generate_types(&cfg, &handle, &mut tree);
            generate_servers(&cfg, &handle, &mut tree);
            generate_clients(&cfg, &handle, &mut tree);
            generate_make(&cfg, &handle, &mut tree);
            Ok(tree)
        },
    }
}

} // verus!
