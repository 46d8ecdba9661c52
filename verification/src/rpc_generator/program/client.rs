//! The client module of a program: its descriptor, its entry points and
//! its authentication hook.

use vstd::prelude::*;
use crate::rpc::{Program, Value, Version, program_versions, versions_entry, versions_len};
use crate::rpc_generator::file::{File, Sink, emit, emit3, emit5};
use crate::rpc_generator::handle::{Handle};
use crate::rpc_generator::types::printables::{constant_lines, print_constant};

pub mod misc;
pub mod procedure;
pub mod version;

verus! {

/// The sink with the size of the authentication handle.
pub open spec fn auth_handle_size(s: Sink) -> Sink {
    s
        .put("#define AUTH_HANDLE_SIZE 0"@)
}

pub fn generate_program_auth_handle_size<F: File>(_handle: &Handle, file: &mut F, _program: &Program)
    ensures
        final(file).sink() == auth_handle_size(old(file).sink()),
{
    emit(file, "#define AUTH_HANDLE_SIZE 0");
}

/// The sink with the prototype of the authentication hook.
pub open spec fn auth_encode_definition(s: Sink) -> Sink {
    s
        .put("// General handle, edit as you like"@)
        .put("void auth_handle_encode(struct rpc_rqst *rqstp, struct xdr_stream *xdr, const void *handle);"@)
}

pub fn generate_program_auth_encode_definition<F: File>(_handle: &Handle, file: &mut F, _program: &Program)
    ensures
        final(file).sink() == auth_encode_definition(old(file).sink()),
{
    emit(file, "// General handle, edit as you like");
    emit(file, "void auth_handle_encode(struct rpc_rqst *rqstp, struct xdr_stream *xdr, const void *handle);");
}

/// The sink with the empty body of the authentication hook.
pub open spec fn auth_encode_declaration(s: Sink) -> Sink {
    s
        .put("void auth_handle_encode(struct rpc_rqst *rqstp, struct xdr_stream *xdr, const void *handle) {"@)
        .put("}"@)
}

pub fn generate_program_auth_encode_declaration<F: File>(_handle: &Handle, file: &mut F, _program: &Program)
    ensures
        final(file).sink() == auth_encode_declaration(old(file).sink()),
{
    emit(file, "void auth_handle_encode(struct rpc_rqst *rqstp, struct xdr_stream *xdr, const void *handle) {");
    emit(file, "}");
}

/// The sink with the descriptor of the program.
pub open spec fn program_declaration(s: Sink, program: Program) -> Sink {
    s
        .put("static struct rpc_stat stats = {};"@)
        .put("static const struct rpc_program "@ + program.name@ + "_program = {"@)
        .put("    .name = \""@ + program.name@ + "\","@)
        .put("    .number = "@ + program.name@ + ","@)
        .put("    .nrvers = ARRAY_SIZE("@ + program.name@ + "_versions),"@)
        .put("    .version = "@ + program.name@ + "_versions,"@)
        .put("    .stats = &stats,"@)
        .put("};"@)
}

pub fn generate_program_declaraion<F: File>(_handle: &Handle, file: &mut F, program: &Program)
    ensures
        final(file).sink() == program_declaration(old(file).sink(), *program),
{
    emit(file, "static struct rpc_stat stats = {};");
    emit3(file, "static const struct rpc_program ", program.name.as_str(), "_program = {");
    emit3(file, "    .name = \"", program.name.as_str(), "\",");
    emit3(file, "    .number = ", program.name.as_str(), ",");
    emit3(file, "    .nrvers = ARRAY_SIZE(", program.name.as_str(), "_versions),");
    emit3(file, "    .version = ", program.name.as_str(), "_versions,");
    emit(file, "    .stats = &stats,");
    emit(file, "};");
}

/// The sink with the entry and exit points of the module.
pub open spec fn program_entrypoint(s: Sink, program: Program) -> Sink {
    s
        .put("static int __init init_md(void) {"@)
        .put("    int rc = client_init(&"@ + program.name@ + "_program);"@)
        .put(""@)
        .put("    if (0 == rc) {"@)
        .put("        printk(\"["@ + program.name@ + "] Client side api loaded\\n\");"@)
        .put("    } else {"@)
        .put("        printk(\"["@ + program.name@ + "] Client initialization error: %pe\\n\", ERR_PTR(rc));"@)
        .put("    }"@)
        .put(""@)
        .put("    return rc;"@)
        .put("}"@)
        .put(""@)
        .put("static void __exit exit_md(void) {"@)
        .put("    client_free();"@)
        .put("    printk(\"["@ + program.name@ + "] RPC client side unloaded\\n\");"@)
        .put("}"@)
        .put(""@)
        .put("module_init(init_md);"@)
        .put("module_exit(exit_md);"@)
}

pub fn generate_program_entrypoint<F: File>(_handle: &Handle, file: &mut F, program: &Program)
    ensures
        final(file).sink() == program_entrypoint(old(file).sink(), *program),
{
    emit(file, "static int __init init_md(void) {");
    emit3(file, "    int rc = client_init(&", program.name.as_str(), "_program);");
    emit(file, "");
    emit(file, "    if (0 == rc) {");
    emit3(file, "        printk(\"[", program.name.as_str(), "] Client side api loaded\\n\");");
    emit(file, "    } else {");
    emit3(file, "        printk(\"[", program.name.as_str(), "] Client initialization error: %pe\\n\", ERR_PTR(rc));");
    emit(file, "    }");
    emit(file, "");
    emit(file, "    return rc;");
    emit(file, "}");
    emit(file, "");
    emit(file, "static void __exit exit_md(void) {");
    emit(file, "    client_free();");
    emit3(file, "    printk(\"[", program.name.as_str(), "] RPC client side unloaded\\n\");");
    emit(file, "}");
    emit(file, "");
    emit(file, "module_init(init_md);");
    emit(file, "module_exit(exit_md);");
}

/// The sink with the slots of the first `n` versions in the array of
/// versions.
pub open spec fn version_slots(s: Sink, versions: Seq<(Value, Version)>, n: nat) -> Sink
    decreases n,
{
    if n == 0 || n > versions.len() {
        s
    } else {
        let s = version_slots(s, versions, (n - 1) as nat);
        s
            .put("    ["@ + versions[n - 1].1.name@ + "] = &"@ + versions[n - 1].1.name@ + "_version,"@)
    }
}

/// The sink with the array of the versions of the program, in order.
pub open spec fn program_version_array(s: Sink, program: Program) -> Sink {
    let s = s
        .put("static const struct rpc_version *"@ + program.name@ + "_versions[] = {"@);
    let s = version_slots(s, program_versions(program.versions), program_versions(program.versions).len());
    s
        .put("};"@)
}

pub fn generate_program_version_array<F: File>(_handle: &Handle, file: &mut F, program: &Program)
    ensures
        final(file).sink() == program_version_array(old(file).sink(), *program),
{
    emit3(file, "static const struct rpc_version *", program.name.as_str(), "_versions[] = {");
    let ghost start = file.sink();
    let n = versions_len(&program.versions);
    let mut i: usize = 0;
    while i < n
        invariant
            n == program_versions(program.versions).len(),
            i <= n,
            file.sink() == version_slots(start, program_versions(program.versions), i as nat),
        decreases n - i,
    {
        match versions_entry(&program.versions, i) {
            Some((_, version)) => {
                emit5(file, "    [", version.name.as_str(), "] = &", version.name.as_str(), "_version,");
            },
            None => {},
        }
        i = i + 1;
    }
    emit(file, "};");
}

/// The sink with the numbers of the first `n` versions, each defined under
/// the name of its version.
pub open spec fn version_numbers(s: Sink, versions: Seq<(Value, Version)>, n: nat) -> Sink
    decreases n,
{
    if n == 0 || n > versions.len() {
        s
    } else {
        let s = version_numbers(s, versions, (n - 1) as nat);
        constant_lines(s, versions[n - 1].1.name@, versions[n - 1].0)
    }
}

/// The sink with the numbers of the versions of the program.
pub open spec fn program_constants(s: Sink, program: Program) -> Sink {
    version_numbers(s, program_versions(program.versions), program_versions(program.versions).len())
}

pub fn generate_program_constants<F: File>(_handle: &Handle, file: &mut F, program: &Program)
    ensures
        final(file).sink() == program_constants(old(file).sink(), *program),
{
    let ghost start = file.sink();
    let n = versions_len(&program.versions);
    let mut i: usize = 0;
    while i < n
        invariant
            n == program_versions(program.versions).len(),
            i <= n,
            file.sink() == version_numbers(start, program_versions(program.versions), i as nat),
        decreases n - i,
    {
        match versions_entry(&program.versions, i) {
            Some((value, version)) => {
                print_constant(file, version.name.as_str(), value);
            },
            None => {},
        }
        i = i + 1;
    }
}

} // verus!
