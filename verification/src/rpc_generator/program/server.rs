//! The server module of a program: its descriptor, its entry points and
//! its authentication hook.

use vstd::prelude::*;
use crate::rpc::{Program, Value, Version, program_versions, versions_entry, versions_len};
use crate::rpc_generator::file::{File, Sink, emit, emit3, emit5};
use crate::rpc_generator::handle::{Handle, Tables};
use crate::rpc_generator::types::printables::{constant_lines, print_constant};
use crate::rpc_generator::misc::{number, unwrap_value};
use crate::text::{decimal, signed_text};

pub mod misc;
pub mod procedure;
pub mod version;

verus! {

/// The sink with the size of the authentication handle.
pub open spec fn auth_handle_size(s: Sink) -> Sink {
    s
        .put("#define AUTH_HANDLE_SIZE 0"@)
}

pub fn generate_program_auth_handle_size<F: File>(_handle: &Handle, file: &mut F, _program: &Program)
    ensures
        final(file).sink() == auth_handle_size(old(file).sink()),
{
    emit(file, "#define AUTH_HANDLE_SIZE 0");
}

/// The sink with the prototype of the authentication hook.
pub open spec fn auth_definition(s: Sink) -> Sink {
    s
        .put("enum svc_auth_status authenticate(struct svc_rqst *rqstp);"@)
}

pub fn generate_program_auth_definition<F: File>(_handle: &Handle, file: &mut F, _program: &Program)
    ensures
        final(file).sink() == auth_definition(old(file).sink()),
{
    emit(file, "enum svc_auth_status authenticate(struct svc_rqst *rqstp);");
}

/// The sink with the authentication hook, which accepts every request.
pub open spec fn auth_declaration(s: Sink) -> Sink {
    s
        .put("enum svc_auth_status authenticate(struct svc_rqst *rqstp) {"@)
        .put("    //"@)
        .put("    // Your authentication logic goes here"@)
        .put("    //"@)
        .put("    return SVC_OK;"@)
        .put("}"@)
}

pub fn generate_program_auth_declaraion<F: File>(_handle: &Handle, file: &mut F, _program: &Program)
    ensures
        final(file).sink() == auth_declaration(old(file).sink()),
{
    emit(file, "enum svc_auth_status authenticate(struct svc_rqst *rqstp) {");
    emit(file, "    //");
    emit(file, "    // Your authentication logic goes here");
    emit(file, "    //");
    emit(file, "    return SVC_OK;");
    emit(file, "}");
}

/// Whether the number of every version leads to a number.
pub open spec fn versions_numbered(tables: Tables, versions: Seq<(Value, Version)>) -> bool {
    forall|i: int| 0 <= i < versions.len() ==> number(tables, (#[trigger] versions[i]).0) is Some
}

/// The lowest of the numbers of the first `n` versions, -1 standing for
/// none.
pub open spec fn lowest_version(tables: Tables, versions: Seq<(Value, Version)>, n: nat) -> i64
    decreases n,
{
    if n == 0 || n > versions.len() {
        -1i64
    } else {
        let lowest = lowest_version(tables, versions, (n - 1) as nat);
        match number(tables, versions[n - 1].0) {
            Some(c) if lowest == -1 || lowest > c => c,
            _ => lowest,
        }
    }
}

/// The highest of the numbers of the first `n` versions, -1 standing for
/// none.
pub open spec fn highest_version(tables: Tables, versions: Seq<(Value, Version)>, n: nat) -> i64
    decreases n,
{
    if n == 0 || n > versions.len() {
        -1i64
    } else {
        let highest = highest_version(tables, versions, (n - 1) as nat);
        match number(tables, versions[n - 1].0) {
            Some(c) if highest == -1 || highest < c => c,
            _ => highest,
        }
    }
}

fn version_range(handle: &Handle, program: &Program) -> (range: (i64, i64))
    requires
        versions_numbered(handle@, program_versions(program.versions)),
    ensures
        range.0 == lowest_version(
            handle@,
            program_versions(program.versions),
            program_versions(program.versions).len(),
        ),
        range.1 == highest_version(
            handle@,
            program_versions(program.versions),
            program_versions(program.versions).len(),
        ),
{
    let n = versions_len(&program.versions);
    let mut lowest: i64 = -1;
    let mut highest: i64 = -1;
    let mut i: usize = 0;
    while i < n
        invariant
            n == program_versions(program.versions).len(),
            i <= n,
            versions_numbered(handle@, program_versions(program.versions)),
            lowest == lowest_version(handle@, program_versions(program.versions), i as nat),
            highest == highest_version(handle@, program_versions(program.versions), i as nat),
        decreases n - i,
    {
        match versions_entry(&program.versions, i) {
            Some((value, _)) => {
                assert(number(handle@, program_versions(program.versions)[i as int].0) is Some);
                let c = unwrap_value(handle, value);
                if -1 == lowest || lowest > c {
                    lowest = c;
                }
                if -1 == highest || highest < c {
                    highest = c;
                }
            },
            None => {},
        }
        i = i + 1;
    }
    (lowest, highest)
}

/// The sink with the descriptor of the program, which names the lowest
/// and the highest of the numbers of its versions.
pub open spec fn program_declaration(s: Sink, tables: Tables, program: Program) -> Sink {
    s
        .put("static struct svc_program "@ + program.name@ + "_program = {"@)
        .put("    .pg_prog = "@ + program.name@ + ","@)
        .put("    .pg_lovers = "@ + decimal(lowest_version(tables, program_versions(program.versions), program_versions(program.versions).len()) as int) + ","@)
        .put("    .pg_hivers = "@ + decimal(highest_version(tables, program_versions(program.versions), program_versions(program.versions).len()) as int) + ","@)
        .put("    .pg_nvers = ARRAY_SIZE("@ + program.name@ + "_versions),"@)
        .put("    .pg_vers = "@ + program.name@ + "_versions,"@)
        .put("    .pg_name = \""@ + program.name@ + "\","@)
        .put("    .pg_class = \""@ + program.name@ + "\","@)
        .put("    .pg_authenticate = authenticate,"@)
        .put("    .pg_init_request = svc_generic_init_request,"@)
        .put("    .pg_rpcbind_set  = svc_generic_rpcbind_set"@)
        .put("};"@)
}

pub fn generate_program_declaraion<F: File>(handle: &Handle, file: &mut F, program: &Program)
    requires
        versions_numbered(handle@, program_versions(program.versions)),
    ensures
        final(file).sink() == program_declaration(old(file).sink(), handle@, *program),
{
    let range = version_range(handle, program);
    let lowest = signed_text(range.0);
    let highest = signed_text(range.1);
    emit3(file, "static struct svc_program ", program.name.as_str(), "_program = {");
    emit3(file, "    .pg_prog = ", program.name.as_str(), ",");
    emit3(file, "    .pg_lovers = ", lowest.as_str(), ",");
    emit3(file, "    .pg_hivers = ", highest.as_str(), ",");
    emit3(file, "    .pg_nvers = ARRAY_SIZE(", program.name.as_str(), "_versions),");
    emit3(file, "    .pg_vers = ", program.name.as_str(), "_versions,");
    emit3(file, "    .pg_name = \"", program.name.as_str(), "\",");
    emit3(file, "    .pg_class = \"", program.name.as_str(), "\",");
    emit(file, "    .pg_authenticate = authenticate,");
    emit(file, "    .pg_init_request = svc_generic_init_request,");
    emit(file, "    .pg_rpcbind_set  = svc_generic_rpcbind_set");
    emit(file, "};");
}

/// The sink with the entry and exit points of the module: the server is
/// created, bound and given its threads, and taken down again.
pub open spec fn program_entrypoint(s: Sink, program: Program) -> Sink {
    s
        .put("static struct svc_stat stat;"@)
        .put("static struct svc_serv *server = NULL;"@)
        .put(""@)
        .put("static int __init init_md(void) {"@)
        .put("    stat.program = &"@ + program.name@ + "_program;"@)
        .put("    server = svc_create(&"@ + program.name@ + "_program, 0, threadfn);"@)
        .put(""@)
        .put("    int rc = 0;"@)
        .put("    int cport = port;"@)
        .put(""@)
        .put("    if (NULL == server) {"@)
        .put("        rc = -EINVAL;"@)
        .put("    }"@)
        .put(""@)
        .put("    if (0 == rc) {"@)
        .put("        rc = svc_bind(server, &init_net);"@)
        .put("    }"@)
        .put(""@)
        .put("    if (0 == rc) {"@)
        .put("        rc = svc_xprt_create(server, \"tcp\", &init_net, AF_INET, cport, 0, get_current_cred());"@)
        .put("        cport = rc > 0 ? rc : cport;"@)
        .put("        rc = rc < 0 ? rc : 0;"@)
        .put("    }"@)
        .put(""@)
        .put("    if (0 == rc) {"@)
        .put("        rc = svc_set_num_threads(server, NULL, threads);"@)
        .put("    }"@)
        .put(""@)
        .put("    if (0 == rc) {"@)
        .put("        printk(\"["@ + program.name@ + "] RPC server started at port: %d\\n\", cport);"@)
        .put("    } else {"@)
        .put("        printk(\"["@ + program.name@ + "] RPC server setup error: %pe\\n\", ERR_PTR(rc));"@)
        .put("    }"@)
        .put(""@)
        .put("    return rc;"@)
        .put("}"@)
        .put(""@)
        .put("static void __exit exit_md(void) {"@)
        .put("    if (server) {"@)
        .put("        svc_xprt_destroy_all(server, &init_net);"@)
        .put("        svc_set_num_threads(server, NULL, 0);"@)
        .put("        svc_rpcb_cleanup(server, &init_net);"@)
        .put("        svc_destroy(&server);"@)
        .put("    }"@)
        .put(""@)
        .put("    server = NULL;"@)
        .put("    printk(\"["@ + program.name@ + "] RPC server stopped\\n\");"@)
        .put("}"@)
        .put(""@)
        .put("module_init(init_md);"@)
        .put("module_exit(exit_md);"@)
}

pub fn generate_program_entrypoint<F: File>(_handle: &Handle, file: &mut F, program: &Program)
    ensures
        final(file).sink() == program_entrypoint(old(file).sink(), *program),
{
    emit(file, "static struct svc_stat stat;");
    emit(file, "static struct svc_serv *server = NULL;");
    emit(file, "");
    emit(file, "static int __init init_md(void) {");
    emit3(file, "    stat.program = &", program.name.as_str(), "_program;");
    emit3(file, "    server = svc_create(&", program.name.as_str(), "_program, 0, threadfn);");
    emit(file, "");
    emit(file, "    int rc = 0;");
    emit(file, "    int cport = port;");
    emit(file, "");
    emit(file, "    if (NULL == server) {");
    emit(file, "        rc = -EINVAL;");
    emit(file, "    }");
    emit(file, "");
    emit(file, "    if (0 == rc) {");
    emit(file, "        rc = svc_bind(server, &init_net);");
    emit(file, "    }");
    emit(file, "");
    emit(file, "    if (0 == rc) {");
    emit(file, "        rc = svc_xprt_create(server, \"tcp\", &init_net, AF_INET, cport, 0, get_current_cred());");
    emit(file, "        cport = rc > 0 ? rc : cport;");
    emit(file, "        rc = rc < 0 ? rc : 0;");
    emit(file, "    }");
    emit(file, "");
    emit(file, "    if (0 == rc) {");
    emit(file, "        rc = svc_set_num_threads(server, NULL, threads);");
    emit(file, "    }");
    emit(file, "");
    emit(file, "    if (0 == rc) {");
    emit3(file, "        printk(\"[", program.name.as_str(), "] RPC server started at port: %d\\n\", cport);");
    emit(file, "    } else {");
    emit3(file, "        printk(\"[", program.name.as_str(), "] RPC server setup error: %pe\\n\", ERR_PTR(rc));");
    emit(file, "    }");
    emit(file, "");
    emit(file, "    return rc;");
    emit(file, "}");
    emit(file, "");
    emit(file, "static void __exit exit_md(void) {");
    emit(file, "    if (server) {");
    emit(file, "        svc_xprt_destroy_all(server, &init_net);");
    emit(file, "        svc_set_num_threads(server, NULL, 0);");
    emit(file, "        svc_rpcb_cleanup(server, &init_net);");
    emit(file, "        svc_destroy(&server);");
    emit(file, "    }");
    emit(file, "");
    emit(file, "    server = NULL;");
    emit3(file, "    printk(\"[", program.name.as_str(), "] RPC server stopped\\n\");");
    emit(file, "}");
    emit(file, "");
    emit(file, "module_init(init_md);");
    emit(file, "module_exit(exit_md);");
}

/// The sink with the slots of the first `n` versions in the array of
/// versions.
pub open spec fn version_slots(s: Sink, versions: Seq<(Value, Version)>, n: nat) -> Sink
    decreases n,
{
    if n == 0 || n > versions.len() {
        s
    } else {
        let s = version_slots(s, versions, (n - 1) as nat);
        s
            .put("    ["@ + versions[n - 1].1.name@ + "] = &"@ + versions[n - 1].1.name@ + "_version,"@)
    }
}

/// The sink with the array of the versions of the program, in order.
pub open spec fn program_version_array(s: Sink, program: Program) -> Sink {
    let s = s
        .put("static const struct svc_version *"@ + program.name@ + "_versions[] = {"@);
    let s = version_slots(s, program_versions(program.versions), program_versions(program.versions).len());
    s
        .put("};"@)
}

pub fn generate_program_version_array<F: File>(_handle: &Handle, file: &mut F, program: &Program)
    ensures
        final(file).sink() == program_version_array(old(file).sink(), *program),
{
    emit3(file, "static const struct svc_version *", program.name.as_str(), "_versions[] = {");
    let ghost start = file.sink();
    let n = versions_len(&program.versions);
    let mut i: usize = 0;
    while i < n
        invariant
            n == program_versions(program.versions).len(),
            i <= n,
            file.sink() == version_slots(start, program_versions(program.versions), i as nat),
        decreases n - i,
    {
        match versions_entry(&program.versions, i) {
            Some((_, version)) => {
                emit5(file, "    [", version.name.as_str(), "] = &", version.name.as_str(), "_version,");
            },
            None => {},
        }
        i = i + 1;
    }
    emit(file, "};");
}

/// The sink with the numbers of the first `n` versions, each defined under
/// the name of its version.
pub open spec fn version_numbers(s: Sink, versions: Seq<(Value, Version)>, n: nat) -> Sink
    decreases n,
{
    if n == 0 || n > versions.len() {
        s
    } else {
        let s = version_numbers(s, versions, (n - 1) as nat);
        constant_lines(s, versions[n - 1].1.name@, versions[n - 1].0)
    }
}

/// The sink with the numbers of the versions of the program.
pub open spec fn program_constants(s: Sink, program: Program) -> Sink {
    version_numbers(s, program_versions(program.versions), program_versions(program.versions).len())
}

pub fn generate_program_constants<F: File>(_handle: &Handle, file: &mut F, program: &Program)
    ensures
        final(file).sink() == program_constants(old(file).sink(), *program),
{
    let ghost start = file.sink();
    let n = versions_len(&program.versions);
    let mut i: usize = 0;
    while i < n
        invariant
            n == program_versions(program.versions).len(),
            i <= n,
            file.sink() == version_numbers(start, program_versions(program.versions), i as nat),
        decreases n - i,
    {
        match versions_entry(&program.versions, i) {
            Some((value, version)) => {
                print_constant(file, version.name.as_str(), value);
            },
            None => {},
        }
        i = i + 1;
    }
}

} // verus!
