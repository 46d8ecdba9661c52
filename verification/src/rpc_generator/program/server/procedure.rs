//! What is written for one procedure of the server: its entry in the
//! table of procedures, the handler stub and the wire code of its
//! arguments and its result.

use vstd::prelude::*;
use crate::rpc::{Procedure, Type};
use crate::rpc_generator::file::{File, Sink, emit, emit3, emit5};
use crate::rpc_generator::handle::{Handle, Tables};
use crate::rpc_generator::types::{
    arguments_printable, argument_name, decode_statement, dynamic, encode_statement,
    generate_decode_statement, generate_encode_statement, generate_release_statement,
    generate_xdr_size, release_statement, size_text, uses_dynamic_memory, wrap_name,
};
use crate::rpc_generator::types::asc;
use crate::rpc_generator::handle::supported_resolves;
use crate::rpc_generator::types::supported_procedure_printable;
use crate::text::{cat2, cat3, unsigned_text};

verus! {

/// Whether some argument holds dynamic memory.
pub open spec fn arguments_dynamic(tables: Tables, arguments: Seq<Type>) -> bool {
    exists|i: int| 0 <= i < arguments.len() && dynamic(tables, #[trigger] arguments[i])
}

/// Whether the server owes a release after a call of the procedure: its
/// result or one of its arguments holds dynamic memory.
pub open spec fn needs_release(tables: Tables, procedure: Procedure) -> bool {
    dynamic(tables, procedure.return_type) || arguments_dynamic(tables, procedure.arguments@)
}

fn any_argument_dynamic(handle: &Handle, procedure: &Procedure) -> (any: bool)
    requires
        forall|i: int|
            0 <= i < procedure.arguments@.len() ==> handle@.resolves(#[trigger] procedure.arguments@[i]),
    ensures
        any == arguments_dynamic(handle@, procedure.arguments@),
{
    let n = procedure.arguments.len();
    let mut i: usize = 0;
    while i < n
        invariant
            n == procedure.arguments@.len(),
            i <= n,
            forall|j: int|
                0 <= j < procedure.arguments@.len() ==> handle@.resolves(
                    #[trigger] procedure.arguments@[j],
                ),
            forall|j: int| 0 <= j < i ==> !dynamic(handle@, #[trigger] procedure.arguments@[j]),
        decreases n - i,
    {
        if uses_dynamic_memory(handle, &procedure.arguments[i]) {
            return true;
        }
        i = i + 1;
    }
    false
}

/// The C type of a result: `void` for a result without values.
pub open spec fn result_type_text(tp: Type) -> Seq<char> {
    if tp == Type::Void {
        "void"@
    } else {
        asc::whole_type(asc::full_type(tp, None, None))
    }
}

fn result_type(tp: &Type) -> (text: String)
    requires
        *tp != Type::Void ==> asc::printable(*tp),
    ensures
        text@ == result_type_text(*tp),
{
    if tp.is_void() {
        String::from_str("void")
    } else {
        asc::typename(&asc::fulltype(tp))
    }
}

pub fn procedure_need_release(handle: &Handle, procedure: &Procedure) -> (needed: bool)
    requires
        handle@.resolves_procedure(*procedure),
    ensures
        needed == needs_release(handle@, *procedure),
{
    uses_dynamic_memory(handle, &procedure.return_type) || any_argument_dynamic(handle, procedure)
}

/// The sink with the entry of the procedure in the table of the version
/// `ver`: its handler, its wire code, the size of its arguments by their
/// number, the release where one is owed, and the sizes of its result.
pub open spec fn procedure_declaration(s: Sink, tables: Tables, procedure: Procedure, ver: Seq<char>) -> Sink {
    let s = s
        .put("    ["@ + procedure.name@ + "] = {"@)
        .put("        .pc_func = "@ + ver + "_"@ + procedure.name@ + "_handler,"@)
        .put("        .pc_decode = "@ + ver + "_"@ + procedure.name@ + "_decode,"@)
        .put("        .pc_encode = "@ + ver + "_"@ + procedure.name@ + "_encode,"@);
    let s = if 0 == procedure.arguments@.len() {
        s
            .put("        .pc_argsize = 0,"@)
            .put("        .pc_argzero = 0,"@)
    } else {
        if 1 == procedure.arguments@.len() {
            s
                .put("        .pc_argsize = sizeof("@ + asc::whole_type(asc::full_type(procedure.arguments@[0], None, None)) + "),"@)
                .put("        .pc_argzero = sizeof("@ + asc::whole_type(asc::full_type(procedure.arguments@[0], None, None)) + "),"@)
        } else {
            s
                .put("        .pc_argsize = sizeof(struct "@ + procedure.name@ + "_argument_wrap),"@)
                .put("        .pc_argzero = sizeof(struct "@ + procedure.name@ + "_argument_wrap),"@)
        }
    };
    let s = if needs_release(tables, procedure) {
        s
            .put("        .pc_release = "@ + ver + "_"@ + procedure.name@ + "_release,"@)
    } else {
        s
    };
    s
        .put("        .pc_ressize = sizeof("@ + result_type_text(procedure.return_type) + "),"@)
        .put("        .pc_xdrressize = "@ + size_text(tables, procedure.return_type) + ","@)
        .put("        .pc_name = \""@ + procedure.name@ + "\","@)
        .put("    },"@)
}

pub fn generate_procedure_declaration<F: File>(handle: &Handle, file: &mut F, procedure: &Procedure, ver: &str)
    requires
        handle@.supports_procedure(*procedure),
    ensures
        final(file).sink() == procedure_declaration(old(file).sink(), handle@, *procedure, ver@),
{
    proof {
        supported_procedure_printable(handle@, *procedure);
    }
    emit3(file, "    [", procedure.name.as_str(), "] = {");
    emit5(file, "        .pc_func = ", ver, "_", procedure.name.as_str(), "_handler,");
    emit5(file, "        .pc_decode = ", ver, "_", procedure.name.as_str(), "_decode,");
    emit5(file, "        .pc_encode = ", ver, "_", procedure.name.as_str(), "_encode,");
    if 0 == procedure.arguments.len() {
        emit(file, "        .pc_argsize = 0,");
        emit(file, "        .pc_argzero = 0,");
    } else {
        if 1 == procedure.arguments.len() {
            let tname = asc::typename(&asc::fulltype(&procedure.arguments[0]));
            emit3(file, "        .pc_argsize = sizeof(", tname.as_str(), "),");
            emit3(file, "        .pc_argzero = sizeof(", tname.as_str(), "),");
        } else {
            emit3(file, "        .pc_argsize = sizeof(struct ", procedure.name.as_str(), "_argument_wrap),");
            emit3(file, "        .pc_argzero = sizeof(struct ", procedure.name.as_str(), "_argument_wrap),");
        }
    }
    if procedure_need_release(handle, procedure) {
        emit5(file, "        .pc_release = ", ver, "_", procedure.name.as_str(), "_release,");
    }
    let restype = result_type(&procedure.return_type);
    let ressize = generate_xdr_size(handle, &procedure.return_type);
    emit3(file, "        .pc_ressize = sizeof(", restype.as_str(), "),");
    emit3(file, "        .pc_xdrressize = ", ressize.as_str(), ",");
    emit3(file, "        .pc_name = \"", procedure.name.as_str(), "\",");
    emit(file, "    },");
}

/// The sink with the prototype of the handler.
pub open spec fn handler_definition(s: Sink, procedure: Procedure, ver: Seq<char>) -> Sink {
    s
        .put("__be32 "@ + ver + "_"@ + procedure.name@ + "_handler(struct svc_rqst *rqstp);"@)
}

pub fn generate_procedure_handler_definition<F: File>(_handle: &Handle, file: &mut F, procedure: &Procedure, ver: &str)
    ensures
        final(file).sink() == handler_definition(old(file).sink(), *procedure, ver@),
{
    emit5(file, "__be32 ", ver, "_", procedure.name.as_str(), "_handler(struct svc_rqst *rqstp);");
}

/// The sink with the stub of the handler, the result and the arguments at
/// hand for the logic to come.
pub open spec fn handler_declaration(s: Sink, procedure: Procedure, ver: Seq<char>) -> Sink {
    let s = s
        .put("__be32 "@ + ver + "_"@ + procedure.name@ + "_handler(struct svc_rqst *rqstp) {"@);
    let s = if procedure.return_type != Type::Void {
        s
            .put("    "@ + asc::pointer_declaration_text("res"@, asc::full_type(procedure.return_type, None, None)) + " = rqstp->rq_resp;"@)
    } else {
        s
    };
    let s = if 0 != procedure.arguments@.len() {
        if 1 == procedure.arguments@.len() {
            s
                .put("    "@ + asc::pointer_declaration_text("arg"@, asc::full_type(procedure.arguments@[0], None, None)) + " = rqstp->rq_argp;"@)
        } else {
            s
                .put("    struct "@ + wrap_name(procedure) + " *arg = rqstp->rq_argp;"@)
        }
    } else {
        s
    };
    s
        .put("    //"@)
        .put("    // Place for your logic"@)
        .put("    //"@)
        .put("    return rpc_success;"@)
        .put("}"@)
}

pub fn generate_procedure_handler_declaration<F: File>(_handle: &Handle, file: &mut F, procedure: &Procedure, ver: &str)
    requires
        arguments_printable(*procedure),
        procedure.return_type != Type::Void ==> asc::printable(procedure.return_type),
    ensures
        final(file).sink() == handler_declaration(old(file).sink(), *procedure, ver@),
{
    emit5(file, "__be32 ", ver, "_", procedure.name.as_str(), "_handler(struct svc_rqst *rqstp) {");
    if !procedure.return_type.is_void() {
        let resdecl = asc::pointer_declaration("res", &asc::fulltype(&procedure.return_type));
        emit3(file, "    ", resdecl.as_str(), " = rqstp->rq_resp;");
    }
    if 0 != procedure.arguments.len() {
        if 1 == procedure.arguments.len() {
            let argdecl = asc::pointer_declaration("arg", &asc::fulltype(&procedure.arguments[0]));
            emit3(file, "    ", argdecl.as_str(), " = rqstp->rq_argp;");
        } else {
            let wname = cat2(procedure.name.as_str(), "_argument_wrap");
            emit3(file, "    struct ", wname.as_str(), " *arg = rqstp->rq_argp;");
        }
    }
    emit(file, "    //");
    emit(file, "    // Place for your logic");
    emit(file, "    //");
    emit(file, "    return rpc_success;");
    emit(file, "}");
}

/// The sink with the prototype of the encoder of the result.
pub open spec fn result_encode_definition(s: Sink, procedure: Procedure, ver: Seq<char>) -> Sink {
    s
        .put("bool "@ + ver + "_"@ + procedure.name@ + "_encode(struct svc_rqst *rqstp, struct xdr_stream *xdr);"@)
}

pub fn generate_procedure_result_encode_definition<F: File>(_handle: &Handle, file: &mut F, procedure: &Procedure, ver: &str)
    ensures
        final(file).sink() == result_encode_definition(old(file).sink(), *procedure, ver@),
{
    emit5(file, "bool ", ver, "_", procedure.name.as_str(), "_encode(struct svc_rqst *rqstp, struct xdr_stream *xdr);");
}

/// The sink with the encoder of the result: nothing to write for a
/// procedure that returns none.
pub open spec fn result_encode_declaration(s: Sink, tables: Tables, procedure: Procedure, ver: Seq<char>) -> Sink {
    let s = s
        .put("bool "@ + ver + "_"@ + procedure.name@ + "_encode(struct svc_rqst *rqstp, struct xdr_stream *xdr) {"@);
    let s = if procedure.return_type == Type::Void {
        s
            .put("    return true;"@)
    } else {
        let s = s
            .put("    "@ + asc::pointer_declaration_text("res"@, asc::full_type(procedure.return_type, None, None)) + " = rqstp->rq_resp;"@)
            .put("    int rc = 0;"@)
            .put(""@);
        let s = encode_statement(s, tables, procedure.return_type, "*res"@, Some("rc"), Some(4));
        s
            .put(""@)
            .put("    if (0 != rc) {"@)
            .put("        return false;"@)
            .put("    }"@)
            .put(""@)
            .put("    return true;"@)
    };
    s
        .put("}"@)
}

pub fn generate_procedure_result_encode_declaration<F: File>(handle: &Handle, file: &mut F, procedure: &Procedure, ver: &str)
    requires
        handle@.supports_procedure(*procedure),
    ensures
        final(file).sink() == result_encode_declaration(old(file).sink(), handle@, *procedure, ver@),
{
    emit5(file, "bool ", ver, "_", procedure.name.as_str(), "_encode(struct svc_rqst *rqstp, struct xdr_stream *xdr) {");
    if procedure.return_type.is_void() {
        emit(file, "    return true;");
    } else {
        proof {
            supported_procedure_printable(handle@, *procedure);
        }
        let resdecl = asc::pointer_declaration("res", &asc::fulltype(&procedure.return_type));
        emit3(file, "    ", resdecl.as_str(), " = rqstp->rq_resp;");
        emit(file, "    int rc = 0;");
        emit(file, "");
        generate_encode_statement(handle, file, &procedure.return_type, "*res", Some("rc"), Some(4));
        emit(file, "");
        emit(file, "    if (0 != rc) {");
        emit(file, "        return false;");
        emit(file, "    }");
        emit(file, "");
        emit(file, "    return true;");
    }
    emit(file, "}");
}

/// The sink with the prototype of the decoder of the arguments.
pub open spec fn arguments_decode_definition(s: Sink, procedure: Procedure, ver: Seq<char>) -> Sink {
    s
        .put("bool "@ + ver + "_"@ + procedure.name@ + "_decode(struct svc_rqst *rqstp, struct xdr_stream *xdr);"@)
}

pub fn generate_procedure_arguments_decode_definition<F: File>(_handle: &Handle, file: &mut F, procedure: &Procedure, ver: &str)
    ensures
        final(file).sink() == arguments_decode_definition(old(file).sink(), *procedure, ver@),
{
    emit5(file, "bool ", ver, "_", procedure.name.as_str(), "_decode(struct svc_rqst *rqstp, struct xdr_stream *xdr);");
}

/// The sink with the decoding of the first `n` arguments out of their
/// wrapping structure.
pub open spec fn decoded_arguments(s: Sink, tables: Tables, arguments: Seq<Type>, n: nat) -> Sink
    decreases n,
{
    if n == 0 || n > arguments.len() {
        s
    } else {
        decode_statement(
            decoded_arguments(s, tables, arguments, (n - 1) as nat),
            tables,
            arguments[n - 1],
            "arg->"@ + argument_name((n - 1) as nat),
            Some("rc"),
            Some(4),
        )
    }
}

fn decode_arguments<F: File>(handle: &Handle, file: &mut F, procedure: &Procedure)
    requires
        handle@.supports_procedure(*procedure),
    ensures
        final(file).sink() == decoded_arguments(
            old(file).sink(),
            handle@,
            procedure.arguments@,
            procedure.arguments@.len(),
        ),
{
    let n = procedure.arguments.len();
    let mut i: usize = 0;
    while i < n
        invariant
            n == procedure.arguments@.len(),
            i <= n,
            handle@.supports_procedure(*procedure),
            file.sink() == decoded_arguments(old(file).sink(), handle@, procedure.arguments@, i as nat),
        decreases n - i,
    {
        let access = cat3("arg->", "arg", unsigned_text(i as u64).as_str());
        assert(access@ =~= "arg->"@ + argument_name(i as nat));
        generate_decode_statement(handle, file, &procedure.arguments[i], access.as_str(), Some("rc"), Some(4));
        i = i + 1;
    }
}

/// The sink with the decoder of the arguments: the one argument, or each
/// field of the structure that wraps several.
pub open spec fn arguments_decode_declaration(s: Sink, tables: Tables, procedure: Procedure, ver: Seq<char>) -> Sink {
    let s = s
        .put("bool "@ + ver + "_"@ + procedure.name@ + "_decode(struct svc_rqst *rqstp, struct xdr_stream *xdr) {"@);
    let s = if 0 == procedure.arguments@.len() {
        s
            .put("    return true;"@)
    } else {
        if 1 == procedure.arguments@.len() {
            if procedure.arguments@[0] == Type::Void {
                s
                    .put("    return true;"@)
            } else {
                let s = s
                    .put("    "@ + asc::pointer_declaration_text("arg"@, asc::full_type(procedure.arguments@[0], None, None)) + " = rqstp->rq_argp;"@)
                    .put("    int rc = 0;"@)
                    .put(""@);
                let s = decode_statement(s, tables, procedure.arguments@[0], "*arg"@, Some("rc"), Some(4));
                s
                    .put(""@)
                    .put("    if (0 != rc) {"@)
                    .put("        return false;"@)
                    .put("    }"@)
                    .put(""@)
                    .put("    return true;"@)
            }
        } else {
            let s = s
                .put("    struct "@ + wrap_name(procedure) + " *arg = rqstp->rq_argp;"@)
                .put("    int rc = 0;"@)
                .put(""@);
            let s = decoded_arguments(s, tables, procedure.arguments@, procedure.arguments@.len());
            s
                .put(""@)
                .put("    if (0 != rc) {"@)
                .put("        return false;"@)
                .put("    }"@)
                .put(""@)
                .put("    return true;"@)
        }
    };
    s
        .put("}"@)
}

pub fn generate_procedure_arguments_decode_declaration<F: File>(handle: &Handle, file: &mut F, procedure: &Procedure, ver: &str)
    requires
        handle@.supports_procedure(*procedure),
    ensures
        final(file).sink() == arguments_decode_declaration(old(file).sink(), handle@, *procedure, ver@),
{
    emit5(file, "bool ", ver, "_", procedure.name.as_str(), "_decode(struct svc_rqst *rqstp, struct xdr_stream *xdr) {");
    if 0 == procedure.arguments.len() {
        emit(file, "    return true;");
    } else {
        if 1 == procedure.arguments.len() {
            if procedure.arguments[0].is_void() {
                emit(file, "    return true;");
            } else {
                proof {
                    supported_procedure_printable(handle@, *procedure);
                }
                let argdecl = asc::pointer_declaration("arg", &asc::fulltype(&procedure.arguments[0]));
                emit3(file, "    ", argdecl.as_str(), " = rqstp->rq_argp;");
                emit(file, "    int rc = 0;");
                emit(file, "");
                generate_decode_statement(handle, file, &procedure.arguments[0], "*arg", Some("rc"), Some(4));
                emit(file, "");
                emit(file, "    if (0 != rc) {");
                emit(file, "        return false;");
                emit(file, "    }");
                emit(file, "");
                emit(file, "    return true;");
            }
        } else {
            let wname = cat2(procedure.name.as_str(), "_argument_wrap");
            emit3(file, "    struct ", wname.as_str(), " *arg = rqstp->rq_argp;");
            emit(file, "    int rc = 0;");
            emit(file, "");
            decode_arguments(handle, file, procedure);
            emit(file, "");
            emit(file, "    if (0 != rc) {");
            emit(file, "        return false;");
            emit(file, "    }");
            emit(file, "");
            emit(file, "    return true;");
        }
    }
    emit(file, "}");
}

/// The sink with the prototype of the release.
pub open spec fn release_definition(s: Sink, procedure: Procedure, ver: Seq<char>) -> Sink {
    s
        .put("void "@ + ver + "_"@ + procedure.name@ + "_release(struct svc_rqst *rqstp);"@)
}

pub fn generate_procedure_release_definition<F: File>(_handle: &Handle, file: &mut F, procedure: &Procedure, ver: &str)
    ensures
        final(file).sink() == release_definition(old(file).sink(), *procedure, ver@),
{
    emit5(file, "void ", ver, "_", procedure.name.as_str(), "_release(struct svc_rqst *rqstp);");
}

/// The sink with the release of the first `n` arguments out of their
/// wrapping structure.
pub open spec fn released_arguments(s: Sink, tables: Tables, arguments: Seq<Type>, n: nat) -> Sink
    decreases n,
{
    if n == 0 || n > arguments.len() {
        s
    } else {
        release_statement(
            released_arguments(s, tables, arguments, (n - 1) as nat),
            tables,
            arguments[n - 1],
            "arg->"@ + argument_name((n - 1) as nat),
            Some(4),
        )
    }
}

fn release_arguments<F: File>(handle: &Handle, file: &mut F, procedure: &Procedure)
    requires
        handle@.supports_procedure(*procedure),
    ensures
        final(file).sink() == released_arguments(
            old(file).sink(),
            handle@,
            procedure.arguments@,
            procedure.arguments@.len(),
        ),
{
    let n = procedure.arguments.len();
    let mut i: usize = 0;
    while i < n
        invariant
            n == procedure.arguments@.len(),
            i <= n,
            handle@.supports_procedure(*procedure),
            file.sink() == released_arguments(old(file).sink(), handle@, procedure.arguments@, i as nat),
        decreases n - i,
    {
        let access = cat3("arg->", "arg", unsigned_text(i as u64).as_str());
        assert(access@ =~= "arg->"@ + argument_name(i as nat));
        generate_release_statement(handle, file, &procedure.arguments[i], access.as_str(), Some(4));
        i = i + 1;
    }
}

/// The sink with the release: of the result and of the arguments, as far
/// as they hold dynamic memory.
pub open spec fn release_declaration(s: Sink, tables: Tables, procedure: Procedure, ver: Seq<char>) -> Sink {
    let s = s
        .put("void "@ + ver + "_"@ + procedure.name@ + "_release(struct svc_rqst *rqstp) {"@);
    let s = if dynamic(tables, procedure.return_type) {
        let s = s
            .put("    "@ + asc::pointer_declaration_text("res"@, asc::full_type(procedure.return_type, None, None)) + " = rqstp->rq_resp;"@)
            .put(""@);
        let s = release_statement(s, tables, procedure.return_type, "*res"@, Some(4));
        s
            .put(""@)
    } else {
        s
    };
    let s = if 0 != procedure.arguments@.len() {
        if 1 == procedure.arguments@.len() {
            if dynamic(tables, procedure.arguments@[0]) {
                let s = s
                    .put("    "@ + asc::pointer_declaration_text("arg"@, asc::full_type(procedure.arguments@[0], None, None)) + " = rqstp->rq_argp;"@)
                    .put(""@);
                release_statement(s, tables, procedure.arguments@[0], "*arg"@, Some(4))
            } else {
                s
            }
        } else {
            if arguments_dynamic(tables, procedure.arguments@) {
                let s = s
                    .put("    struct "@ + wrap_name(procedure) + " *arg = rqstp->rq_argp;"@)
                    .put(""@);
                released_arguments(s, tables, procedure.arguments@, procedure.arguments@.len())
            } else {
                s
            }
        }
    } else {
        s
    };
    s
        .put("}"@)
}

pub fn generate_procedure_release_declaration<F: File>(handle: &Handle, file: &mut F, procedure: &Procedure, ver: &str)
    requires
        handle@.supports_procedure(*procedure),
    ensures
        final(file).sink() == release_declaration(old(file).sink(), handle@, *procedure, ver@),
{
    proof {
        supported_procedure_printable(handle@, *procedure);
        supported_resolves(handle@, procedure.return_type, handle@.depth());
    }
    emit5(file, "void ", ver, "_", procedure.name.as_str(), "_release(struct svc_rqst *rqstp) {");
    if uses_dynamic_memory(handle, &procedure.return_type) {
        let resdecl = asc::pointer_declaration("res", &asc::fulltype(&procedure.return_type));
        emit3(file, "    ", resdecl.as_str(), " = rqstp->rq_resp;");
        emit(file, "");
        generate_release_statement(handle, file, &procedure.return_type, "*res", Some(4));
        emit(file, "");
    }
    if 0 != procedure.arguments.len() {
        if 1 == procedure.arguments.len() {
            proof {
                supported_resolves(handle@, procedure.arguments@[0], handle@.depth());
            }
            if uses_dynamic_memory(handle, &procedure.arguments[0]) {
                let argdecl = asc::pointer_declaration("arg", &asc::fulltype(&procedure.arguments[0]));
                emit3(file, "    ", argdecl.as_str(), " = rqstp->rq_argp;");
                emit(file, "");
                generate_release_statement(handle, file, &procedure.arguments[0], "*arg", Some(4));
            }
        } else {
            if any_argument_dynamic(handle, procedure) {
                let wname = cat2(procedure.name.as_str(), "_argument_wrap");
                emit3(file, "    struct ", wname.as_str(), " *arg = rqstp->rq_argp;");
                emit(file, "");
                release_arguments(handle, file, procedure);
            }
        }
    }
    emit(file, "}");
}

} // verus!
