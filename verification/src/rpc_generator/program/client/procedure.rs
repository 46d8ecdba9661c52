//! What is written for one procedure of the client: its entry in the
//! table of procedures, the call wrapper and the wire code of its
//! arguments and its result.

use vstd::prelude::*;
use crate::rpc::{Procedure, Type};
use crate::rpc_generator::file::{File, Sink, emit, emit3, emit5, emit7, emit9, emit10};
use crate::rpc_generator::handle::{Handle, Tables};
use crate::rpc_generator::types::{
    arguments_printable, arguments_size, arguments_size_text, argument_name, decode_statement,
    dynamic, encode_statement, generate_decode_statement, generate_encode_statement,
    generate_release_statement, generate_xdr_size, release_statement, size_text,
    uses_dynamic_memory, wrap_name,
};
use crate::rpc_generator::types::asc;
use crate::rpc_generator::types::supported_procedure_printable;
use crate::rpc_generator::handle::supported_resolves;
use crate::text::{cat2, cat3, unsigned_text};

verus! {

/// The sink with the entry of the procedure in the table of the version
/// `ver`: its number, its wire code and the sizes of its arguments and of
/// its result.
pub open spec fn procedure_declaration(s: Sink, tables: Tables, procedure: Procedure, ver: Seq<char>) -> Sink {
    s
        .put("    ["@ + procedure.name@ + "] = {"@)
        .put("        .p_proc = "@ + procedure.name@ + ","@)
        .put("        .p_encode = "@ + ver + "_"@ + procedure.name@ + "_encode,"@)
        .put("        .p_decode = "@ + ver + "_"@ + procedure.name@ + "_decode,"@)
        .put("        .p_arglen = AUTH_HANDLE_SIZE+"@ + arguments_size_text(tables, procedure.arguments@) + ","@)
        .put("        .p_replen = "@ + size_text(tables, procedure.return_type) + ","@)
        .put("        .p_statidx = "@ + procedure.name@ + ","@)
        .put("        .p_name = \""@ + procedure.name@ + "\","@)
        .put("    },"@)
}

pub fn generate_procedure_declaration<F: File>(handle: &Handle, file: &mut F, procedure: &Procedure, ver: &str)
    requires
        handle@.supports_procedure(*procedure),
    ensures
        final(file).sink() == procedure_declaration(old(file).sink(), handle@, *procedure, ver@),
{
    let ressize = generate_xdr_size(handle, &procedure.return_type);
    let argsize = arguments_size(handle, procedure);
    emit3(file, "    [", procedure.name.as_str(), "] = {");
    emit3(file, "        .p_proc = ", procedure.name.as_str(), ",");
    emit5(file, "        .p_encode = ", ver, "_", procedure.name.as_str(), "_encode,");
    emit5(file, "        .p_decode = ", ver, "_", procedure.name.as_str(), "_decode,");
    emit3(file, "        .p_arglen = AUTH_HANDLE_SIZE+", argsize.as_str(), ",");
    emit3(file, "        .p_replen = ", ressize.as_str(), ",");
    emit3(file, "        .p_statidx = ", procedure.name.as_str(), ",");
    emit3(file, "        .p_name = \"", procedure.name.as_str(), "\",");
    emit(file, "    },");
}

/// The declarations of the first `n` arguments as parameters, if there is
/// one.
pub open spec fn listed_arguments(arguments: Seq<Type>, n: nat) -> Option<Seq<char>>
    decreases n,
{
    if n == 0 || n > arguments.len() {
        None
    } else {
        let parameter = asc::declaration_text(
            argument_name((n - 1) as nat),
            asc::full_type(arguments[n - 1], None, None),
        );
        match listed_arguments(arguments, (n - 1) as nat) {
            Some(list) => Some(list + ", "@ + parameter),
            None => Some(parameter),
        }
    }
}

/// The parameter list of the call wrapper: the arguments as `arg0`, `arg1`
/// and so on, or `void` without arguments.
pub open spec fn expanded_arguments(arguments: Seq<Type>) -> Seq<char> {
    match listed_arguments(arguments, arguments.len()) {
        Some(list) => list,
        None => "void"@,
    }
}

fn expand_arguments(procedure: &Procedure) -> (list: String)
    requires
        arguments_printable(*procedure),
    ensures
        list@ == expanded_arguments(procedure.arguments@),
{
    let n = procedure.arguments.len();
    let mut list: Option<String> = None;
    let mut i: usize = 0;
    while i < n
        invariant
            n == procedure.arguments@.len(),
            i <= n,
            arguments_printable(*procedure),
            asc::opt_text(list) == listed_arguments(procedure.arguments@, i as nat),
        decreases n - i,
    {
        let name = cat2("arg", unsigned_text(i as u64).as_str());
        let parameter = asc::declaration(name.as_str(), &asc::fulltype(&procedure.arguments[i]));
        list = match list {
            Some(list) => Some(cat3(list.as_str(), ", ", parameter.as_str())),
            None => Some(parameter),
        };
        i = i + 1;
    }
    match list {
        Some(list) => list,
        None => String::from_str("void"),
    }
}

/// The sink with the result type of the call wrapper, which holds the
/// value unless the procedure returns none, and with its prototype.
pub open spec fn api_definition(s: Sink, procedure: Procedure, ver: Seq<char>, prog: Seq<char>) -> Sink {
    let s = s
        .put("typedef struct {"@);
    let s = if procedure.return_type != Type::Void {
        s
            .put("    "@ + asc::declaration_text("value"@, asc::full_type(procedure.return_type, None, None)) + ";"@)
    } else {
        s
    };
    s
        .put("    int error;"@)
        .put("} "@ + procedure.name@ + "_result_t;"@)
        .put(""@)
        .put(procedure.name@ + "_result_t "@ + prog + "_"@ + ver + "_"@ + procedure.name@ + "("@ + expanded_arguments(procedure.arguments@) + ");"@)
}

pub fn generate_procedure_api_definition<F: File>(_handle: &Handle, file: &mut F, procedure: &Procedure, ver: &str, prog: &str)
    requires
        arguments_printable(*procedure),
        procedure.return_type != Type::Void ==> asc::printable(procedure.return_type),
    ensures
        final(file).sink() == api_definition(old(file).sink(), *procedure, ver@, prog@),
{
    emit(file, "typedef struct {");
    if !procedure.return_type.is_void() {
        let valdecl = asc::declaration("value", &asc::fulltype(&procedure.return_type));
        emit3(file, "    ", valdecl.as_str(), ";");
    }
    let arguments = expand_arguments(procedure);
    emit(file, "    int error;");
    emit3(file, "} ", procedure.name.as_str(), "_result_t;");
    emit(file, "");
    emit10(file, procedure.name.as_str(), "_result_t ", prog, "_", ver, "_", procedure.name.as_str(), "(", arguments.as_str(), ");");
}

/// The sink with the first `n` arguments copied into the fields of the
/// wrapping structure.
pub open spec fn copied_arguments(s: Sink, n: nat) -> Sink
    decreases n,
{
    if n == 0 {
        s
    } else {
        copied_arguments(s, (n - 1) as nat).put(
            "            ."@ + argument_name((n - 1) as nat) + " = "@ + argument_name((n - 1) as nat)
                + ","@,
        )
    }
}

fn copy_arguments<F: File>(file: &mut F, count: usize)
    ensures
        final(file).sink() == copied_arguments(old(file).sink(), count as nat),
{
    let mut i: usize = 0;
    while i < count
        invariant
            i <= count,
            file.sink() == copied_arguments(old(file).sink(), i as nat),
        decreases count - i,
    {
        let name = cat2("arg", unsigned_text(i as u64).as_str());
        emit5(file, "            .", name.as_str(), " = ", name.as_str(), ",");
        i = i + 1;
    }
}

/// The sink with the call wrapper: it takes the connection, wraps two
/// arguments or more in their structure, and makes the call.
pub open spec fn api_declaration(s: Sink, procedure: Procedure, ver: Seq<char>, prog: Seq<char>) -> Sink {
    let s = s
        .put(procedure.name@ + "_result_t "@ + prog + "_"@ + ver + "_"@ + procedure.name@ + "("@ + expanded_arguments(procedure.arguments@) + ") {"@)
        .put("    "@ + procedure.name@ + "_result_t res;"@)
        .put("    struct rpc_clnt *client = client_get();"@)
        .put(""@)
        .put("    if (IS_ERR(client)) {"@)
        .put("        res.error = PTR_ERR(client);"@)
        .put("    } else if (NULL == client) {"@)
        .put("        res.error = -EINVAL;"@)
        .put("    } else {"@);
    let s = if 1 < procedure.arguments@.len() {
        let s = s
            .put("        struct "@ + wrap_name(procedure) + " arg = {"@);
        let s = copied_arguments(s, procedure.arguments@.len());
        s
            .put("        };"@)
            .put(""@)
    } else {
        s
    };
    let s = s
        .put("        struct rpc_message msg = {"@)
        .put("            .rpc_proc = &"@ + ver + "_procedures["@ + procedure.name@ + "],"@);
    let s = if 0 != procedure.arguments@.len() {
        if 1 == procedure.arguments@.len() {
            s
                .put("            .rpc_argp = &arg0,"@)
        } else {
            s
                .put("            .rpc_argp = &arg,"@)
        }
    } else {
        s
    };
    let s = if procedure.return_type != Type::Void {
        s
            .put("            .rpc_resp = &res.value,"@)
    } else {
        s
    };
    s
        .put("            .rpc_cred = get_current_cred(),"@)
        .put("        };"@)
        .put(""@)
        .put("        res.error = rpc_call_sync(client, &msg, 0);"@)
        .put("    }"@)
        .put(""@)
        .put("    return res;"@)
        .put("}"@)
        .put("EXPORT_SYMBOL("@ + prog + "_"@ + ver + "_"@ + procedure.name@ + ");"@)
}

pub fn generate_procedure_api_declaration<F: File>(_handle: &Handle, file: &mut F, procedure: &Procedure, ver: &str, prog: &str)
    requires
        arguments_printable(*procedure),
    ensures
        final(file).sink() == api_declaration(old(file).sink(), *procedure, ver@, prog@),
{
    let arguments = expand_arguments(procedure);
    emit10(file, procedure.name.as_str(), "_result_t ", prog, "_", ver, "_", procedure.name.as_str(), "(", arguments.as_str(), ") {");
    emit3(file, "    ", procedure.name.as_str(), "_result_t res;");
    emit(file, "    struct rpc_clnt *client = client_get();");
    emit(file, "");
    emit(file, "    if (IS_ERR(client)) {");
    emit(file, "        res.error = PTR_ERR(client);");
    emit(file, "    } else if (NULL == client) {");
    emit(file, "        res.error = -EINVAL;");
    emit(file, "    } else {");
    if 1 < procedure.arguments.len() {
        let wname = cat2(procedure.name.as_str(), "_argument_wrap");
        emit3(file, "        struct ", wname.as_str(), " arg = {");
        copy_arguments(file, procedure.arguments.len());
        emit(file, "        };");
        emit(file, "");
    }
    emit(file, "        struct rpc_message msg = {");
    emit5(file, "            .rpc_proc = &", ver, "_procedures[", procedure.name.as_str(), "],");
    if 0 != procedure.arguments.len() {
        if 1 == procedure.arguments.len() {
            emit(file, "            .rpc_argp = &arg0,");
        } else {
            emit(file, "            .rpc_argp = &arg,");
        }
    }
    if !procedure.return_type.is_void() {
        emit(file, "            .rpc_resp = &res.value,");
    }
    emit(file, "            .rpc_cred = get_current_cred(),");
    emit(file, "        };");
    emit(file, "");
    emit(file, "        res.error = rpc_call_sync(client, &msg, 0);");
    emit(file, "    }");
    emit(file, "");
    emit(file, "    return res;");
    emit(file, "}");
    emit7(file, "EXPORT_SYMBOL(", prog, "_", ver, "_", procedure.name.as_str(), ");");
}

/// The sink with the prototype of the decoder of the result.
pub open spec fn result_decode_definition(s: Sink, procedure: Procedure, ver: Seq<char>) -> Sink {
    s
        .put("int "@ + ver + "_"@ + procedure.name@ + "_decode(struct rpc_rqst *rqstp, struct xdr_stream *xdr, void *data);"@)
}

pub fn generate_procedure_result_decode_definition<F: File>(_handle: &Handle, file: &mut F, procedure: &Procedure, ver: &str)
    ensures
        final(file).sink() == result_decode_definition(old(file).sink(), *procedure, ver@),
{
    emit5(file, "int ", ver, "_", procedure.name.as_str(), "_decode(struct rpc_rqst *rqstp, struct xdr_stream *xdr, void *data);");
}

/// The sink with the decoder of the result: nothing to read for a
/// procedure that returns none.
pub open spec fn result_decode_declaration(s: Sink, tables: Tables, procedure: Procedure, ver: Seq<char>) -> Sink {
    let s = s
        .put("int "@ + ver + "_"@ + procedure.name@ + "_decode(struct rpc_rqst *rqstp, struct xdr_stream *xdr, void *data) {"@);
    let s = if procedure.return_type == Type::Void {
        s
            .put("    return 0;"@)
    } else {
        let s = s
            .put("    "@ + asc::pointer_declaration_text("res"@, asc::full_type(procedure.return_type, None, None)) + " = data;"@)
            .put("    int rc = 0;"@)
            .put(""@);
        let s = decode_statement(s, tables, procedure.return_type, "*res"@, Some("rc"), Some(4));
        s
            .put(""@)
            .put("    return rc;"@)
    };
    s
        .put("}"@)
}

pub fn generate_procedure_result_decode_declaration<F: File>(handle: &Handle, file: &mut F, procedure: &Procedure, ver: &str)
    requires
        handle@.supports_procedure(*procedure),
    ensures
        final(file).sink() == result_decode_declaration(old(file).sink(), handle@, *procedure, ver@),
{
    emit5(file, "int ", ver, "_", procedure.name.as_str(), "_decode(struct rpc_rqst *rqstp, struct xdr_stream *xdr, void *data) {");
    if procedure.return_type.is_void() {
        emit(file, "    return 0;");
    } else {
        proof {
            supported_procedure_printable(handle@, *procedure);
        }
        let resdecl = asc::pointer_declaration("res", &asc::fulltype(&procedure.return_type));
        emit3(file, "    ", resdecl.as_str(), " = data;");
        emit(file, "    int rc = 0;");
        emit(file, "");
        generate_decode_statement(handle, file, &procedure.return_type, "*res", Some("rc"), Some(4));
        emit(file, "");
        emit(file, "    return rc;");
    }
    emit(file, "}");
}

/// The sink with the prototype of the encoder of the arguments.
pub open spec fn arguments_encode_definition(s: Sink, procedure: Procedure, ver: Seq<char>) -> Sink {
    s
        .put("void "@ + ver + "_"@ + procedure.name@ + "_encode(struct rpc_rqst *rqstp, struct xdr_stream *xdr, const void *data);"@)
}

pub fn generate_procedure_arguments_encode_definition<F: File>(_handle: &Handle, file: &mut F, procedure: &Procedure, ver: &str)
    ensures
        final(file).sink() == arguments_encode_definition(old(file).sink(), *procedure, ver@),
{
    emit5(file, "void ", ver, "_", procedure.name.as_str(), "_encode(struct rpc_rqst *rqstp, struct xdr_stream *xdr, const void *data);");
}

/// The sink with the encoding of the first `n` arguments out of their
/// wrapping structure.
pub open spec fn encoded_arguments(s: Sink, tables: Tables, arguments: Seq<Type>, n: nat) -> Sink
    decreases n,
{
    if n == 0 || n > arguments.len() {
        s
    } else {
        encode_statement(
            encoded_arguments(s, tables, arguments, (n - 1) as nat),
            tables,
            arguments[n - 1],
            "arg->"@ + argument_name((n - 1) as nat),
            Some("rc"),
            Some(4),
        )
    }
}

fn encode_arguments<F: File>(handle: &Handle, file: &mut F, procedure: &Procedure)
    requires
        handle@.supports_procedure(*procedure),
    ensures
        final(file).sink() == encoded_arguments(
            old(file).sink(),
            handle@,
            procedure.arguments@,
            procedure.arguments@.len(),
        ),
{
    let n = procedure.arguments.len();
    let mut i: usize = 0;
    while i < n
        invariant
            n == procedure.arguments@.len(),
            i <= n,
            handle@.supports_procedure(*procedure),
            file.sink() == encoded_arguments(old(file).sink(), handle@, procedure.arguments@, i as nat),
        decreases n - i,
    {
        let access = cat3("arg->", "arg", unsigned_text(i as u64).as_str());
        assert(access@ =~= "arg->"@ + argument_name(i as nat));
        generate_encode_statement(
            handle,
            file,
            &procedure.arguments[i],
            access.as_str(),
            Some("rc"),
            Some(4),
        );
        i = i + 1;
    }
}

/// The sink with the encoder of the arguments: after the authentication
/// handle, the one argument, or each field of the structure that wraps
/// several; a failure is logged.
pub open spec fn arguments_encode_declaration(s: Sink, tables: Tables, procedure: Procedure, ver: Seq<char>, prog: Seq<char>) -> Sink {
    let s = s
        .put("void "@ + ver + "_"@ + procedure.name@ + "_encode(struct rpc_rqst *rqstp, struct xdr_stream *xdr, const void *data) {"@)
        .put("    auth_handle_encode(rqstp, xdr, NULL);"@);
    let s = if 0 != procedure.arguments@.len() {
        if 1 == procedure.arguments@.len() {
            if procedure.arguments@[0] != Type::Void {
                let s = s
                    .put("    const "@ + asc::pointer_declaration_text("arg"@, asc::full_type(procedure.arguments@[0], None, None)) + " = data;"@)
                    .put("    int rc = 0;"@)
                    .put(""@);
                let s = encode_statement(s, tables, procedure.arguments@[0], "*arg"@, Some("rc"), Some(4));
                s
                    .put(""@)
                    .put("    if (0 != rc) {"@)
                    .put("        printk(\"["@ + prog + "_"@ + ver + "_"@ + procedure.name@ + "] Error during decode: %pe\", ERR_PTR(rc));"@)
                    .put("    }"@)
            } else {
                s
            }
        } else {
            let s = s
                .put("    const struct "@ + wrap_name(procedure) + " *arg = data;"@)
                .put("    int rc = 0;"@)
                .put(""@);
            let s = encoded_arguments(s, tables, procedure.arguments@, procedure.arguments@.len());
            s
                .put(""@)
                .put("    if (0 != rc) {"@)
                .put("        printk(\"["@ + prog + "_"@ + ver + "_"@ + procedure.name@ + "] Error during decode: %pe\", ERR_PTR(rc));"@)
                .put("    }"@)
        }
    } else {
        s
    };
    s
        .put("}"@)
}

pub fn generate_procedure_arguments_encode_declaration<F: File>(handle: &Handle, file: &mut F, procedure: &Procedure, ver: &str, prog: &str)
    requires
        handle@.supports_procedure(*procedure),
    ensures
        final(file).sink() == arguments_encode_declaration(old(file).sink(), handle@, *procedure, ver@, prog@),
{
    emit5(file, "void ", ver, "_", procedure.name.as_str(), "_encode(struct rpc_rqst *rqstp, struct xdr_stream *xdr, const void *data) {");
    emit(file, "    auth_handle_encode(rqstp, xdr, NULL);");
    if 0 != procedure.arguments.len() {
        if 1 == procedure.arguments.len() {
            if !procedure.arguments[0].is_void() {
                proof {
                    supported_procedure_printable(handle@, *procedure);
                }
                let argdecl = asc::pointer_declaration("arg", &asc::fulltype(&procedure.arguments[0]));
                emit3(file, "    const ", argdecl.as_str(), " = data;");
                emit(file, "    int rc = 0;");
                emit(file, "");
                generate_encode_statement(handle, file, &procedure.arguments[0], "*arg", Some("rc"), Some(4));
                emit(file, "");
                emit(file, "    if (0 != rc) {");
                emit7(file, "        printk(\"[", prog, "_", ver, "_", procedure.name.as_str(), "] Error during decode: %pe\", ERR_PTR(rc));");
                emit(file, "    }");
            }
        } else {
            let wname = cat2(procedure.name.as_str(), "_argument_wrap");
            emit3(file, "    const struct ", wname.as_str(), " *arg = data;");
            emit(file, "    int rc = 0;");
            emit(file, "");
            encode_arguments(handle, file, procedure);
            emit(file, "");
            emit(file, "    if (0 != rc) {");
            emit7(file, "        printk(\"[", prog, "_", ver, "_", procedure.name.as_str(), "] Error during decode: %pe\", ERR_PTR(rc));");
            emit(file, "    }");
        }
    }
    emit(file, "}");
}

/// The sink with the prototype of the release of the result, where the
/// result holds dynamic memory.
pub open spec fn release_definition(s: Sink, tables: Tables, procedure: Procedure, ver: Seq<char>, prog: Seq<char>) -> Sink {
    if dynamic(tables, procedure.return_type) {
        s
            .put("void release_result_"@ + prog + "_"@ + ver + "_"@ + procedure.name@ + "("@ + asc::pointer_declaration_text("result"@, asc::full_type(procedure.return_type, None, None)) + ");"@)
    } else {
        s
    }
}

/// Writes the prototype of the release of the result, if the result holds
/// dynamic memory, and says whether it did.
pub fn generate_procedure_release_definition<F: File>(handle: &Handle, file: &mut F, procedure: &Procedure, ver: &str, prog: &str) -> (written: bool)
    requires
        handle@.supports_procedure(*procedure),
    ensures
        final(file).sink() == release_definition(old(file).sink(), handle@, *procedure, ver@, prog@),
        written == dynamic(handle@, procedure.return_type),
{
    proof {
        supported_resolves(handle@, procedure.return_type, handle@.depth());
        supported_procedure_printable(handle@, *procedure);
    }
    if uses_dynamic_memory(handle, &procedure.return_type) {
        let resultdecl = asc::pointer_declaration("result", &asc::fulltype(&procedure.return_type));
        emit9(file, "void release_result_", prog, "_", ver, "_", procedure.name.as_str(), "(", resultdecl.as_str(), ");");
        return true;
    }
    false
}

/// The sink with the release of the result, where the result holds
/// dynamic memory.
pub open spec fn release_declaration(s: Sink, tables: Tables, procedure: Procedure, ver: Seq<char>, prog: Seq<char>) -> Sink {
    if dynamic(tables, procedure.return_type) {
        let s = s
            .put("void release_result_"@ + prog + "_"@ + ver + "_"@ + procedure.name@ + "("@ + asc::pointer_declaration_text("result"@, asc::full_type(procedure.return_type, None, None)) + ") {"@)
            .put("    if (NULL == result) {"@)
            .put("        return;"@)
            .put("    }"@)
            .put(""@);
        let s = release_statement(s, tables, procedure.return_type, "*result"@, Some(4));
        s
            .put("}"@)
            .put("EXPORT_SYMBOL(release_result_"@ + prog + "_"@ + ver + "_"@ + procedure.name@ + ");"@)
    } else {
        s
    }
}

/// Writes the release of the result, if the result holds dynamic memory,
/// and says whether it did.
pub fn generate_procedure_release_declaration<F: File>(handle: &Handle, file: &mut F, procedure: &Procedure, ver: &str, prog: &str) -> (written: bool)
    requires
        handle@.supports_procedure(*procedure),
    ensures
        final(file).sink() == release_declaration(old(file).sink(), handle@, *procedure, ver@, prog@),
        written == dynamic(handle@, procedure.return_type),
{
    proof {
        supported_resolves(handle@, procedure.return_type, handle@.depth());
        supported_procedure_printable(handle@, *procedure);
    }
    if uses_dynamic_memory(handle, &procedure.return_type) {
        let resultdecl = asc::pointer_declaration("result", &asc::fulltype(&procedure.return_type));
        emit9(file, "void release_result_", prog, "_", ver, "_", procedure.name.as_str(), "(", resultdecl.as_str(), ") {");
        emit(file, "    if (NULL == result) {");
        emit(file, "        return;");
        emit(file, "    }");
        emit(file, "");
        generate_release_statement(handle, file, &procedure.return_type, "*result", Some(4));
        emit(file, "}");
        emit7(file, "EXPORT_SYMBOL(release_result_", prog, "_", ver, "_", procedure.name.as_str(), ");");
        return true;
    }
    false
}

} // verus!
