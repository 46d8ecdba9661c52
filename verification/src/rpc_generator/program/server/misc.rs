//! What the servers of all programs share: the thread function and the
//! dispatcher.

use vstd::prelude::*;
use crate::rpc_generator::file::{File, Sink, emit};
use crate::rpc_generator::handle::Handle;

verus! {

/// The sink with the prototype of the thread function.
pub open spec fn thread_function_definition(s: Sink) -> Sink {
    s
        .put("int threadfn(void *data);"@)
}

pub fn generate_thread_function_definition<F: File>(_handle: &Handle, file: &mut F)
    ensures
        final(file).sink() == thread_function_definition(old(file).sink()),
{
    emit(file, "int threadfn(void *data);");
}

/// The sink with the thread function, which receives requests until it is
/// told to stop.
pub open spec fn thread_function_declaration(s: Sink) -> Sink {
    s
        .put("int threadfn(void *data) {"@)
        .put("    struct svc_rqst *rqstp = data;"@)
        .put("    svc_thread_init_status(rqstp, 0);"@)
        .put("    set_freezable();"@)
        .put(""@)
        .put("    while (!svc_thread_should_stop(rqstp)) {"@)
        .put("        svc_recv(rqstp);"@)
        .put("    }"@)
        .put(""@)
        .put("    svc_exit_thread(rqstp);"@)
        .put(""@)
        .put("    return 0;"@)
        .put("}"@)
}

pub fn generate_thread_function_declaration<F: File>(_handle: &Handle, file: &mut F)
    ensures
        final(file).sink() == thread_function_declaration(old(file).sink()),
{
    emit(file, "int threadfn(void *data) {");
    emit(file, "    struct svc_rqst *rqstp = data;");
    emit(file, "    svc_thread_init_status(rqstp, 0);");
    emit(file, "    set_freezable();");
    emit(file, "");
    emit(file, "    while (!svc_thread_should_stop(rqstp)) {");
    emit(file, "        svc_recv(rqstp);");
    emit(file, "    }");
    emit(file, "");
    emit(file, "    svc_exit_thread(rqstp);");
    emit(file, "");
    emit(file, "    return 0;");
    emit(file, "}");
}

/// The sink with the prototype of the dispatcher.
pub open spec fn dispatch_definition(s: Sink) -> Sink {
    s
        .put("int dispatch(struct svc_rqst *rqstp);"@)
}

pub fn generate_dispatch_definition<F: File>(_handle: &Handle, file: &mut F)
    ensures
        final(file).sink() == dispatch_definition(old(file).sink()),
{
    emit(file, "int dispatch(struct svc_rqst *rqstp);");
}

/// The sink with the dispatcher: it decodes the arguments, calls the
/// handler and encodes the result, and reports which of these failed.
pub open spec fn dispatch_declaration(s: Sink) -> Sink {
    s
        .put("int dispatch(struct svc_rqst *rqstp) {"@)
        .put("    const struct svc_procedure *proc = rqstp->rq_procinfo;"@)
        .put("    __be32 *statp = rqstp->rq_accept_statp;"@)
        .put(""@)
        .put("    if (!proc->pc_decode(rqstp, &rqstp->rq_arg_stream)) {"@)
        .put("        *statp = rpc_garbage_args;"@)
        .put("        return 0;"@)
        .put("    }"@)
        .put(""@)
        .put("    *statp = proc->pc_func(rqstp);"@)
        .put(""@)
        .put("    if (test_bit(RQ_DROPME, &rqstp->rq_flags)) {"@)
        .put("        *statp = rpc_success;"@)
        .put("        return 0;"@)
        .put("    }"@)
        .put(""@)
        .put("    if (!proc->pc_encode(rqstp, &rqstp->rq_res_stream)) {"@)
        .put("        *statp = rpc_system_err;"@)
        .put("        return 0;"@)
        .put("    }"@)
        .put(""@)
        .put("    return 1;"@)
        .put("}"@)
}

pub fn generate_dispatch_declaration<F: File>(_handle: &Handle, file: &mut F)
    ensures
        final(file).sink() == dispatch_declaration(old(file).sink()),
{
    emit(file, "int dispatch(struct svc_rqst *rqstp) {");
    emit(file, "    const struct svc_procedure *proc = rqstp->rq_procinfo;");
    emit(file, "    __be32 *statp = rqstp->rq_accept_statp;");
    emit(file, "");
    emit(file, "    if (!proc->pc_decode(rqstp, &rqstp->rq_arg_stream)) {");
    emit(file, "        *statp = rpc_garbage_args;");
    emit(file, "        return 0;");
    emit(file, "    }");
    emit(file, "");
    emit(file, "    *statp = proc->pc_func(rqstp);");
    emit(file, "");
    emit(file, "    if (test_bit(RQ_DROPME, &rqstp->rq_flags)) {");
    emit(file, "        *statp = rpc_success;");
    emit(file, "        return 0;");
    emit(file, "    }");
    emit(file, "");
    emit(file, "    if (!proc->pc_encode(rqstp, &rqstp->rq_res_stream)) {");
    emit(file, "        *statp = rpc_system_err;");
    emit(file, "        return 0;");
    emit(file, "    }");
    emit(file, "");
    emit(file, "    return 1;");
    emit(file, "}");
}

/// The sink with the parameters of the module: the port, 0 for any, and
/// the number of threads.
pub open spec fn program_parameters(s: Sink) -> Sink {
    s
        .put("static unsigned short port = 0;"@)
        .put("module_param(port, ushort, 0);"@)
        .put(""@)
        .put("static unsigned int threads = 1;"@)
        .put("module_param(threads, uint, 0);"@)
}

pub fn generate_program_parameters<F: File>(_handle: &Handle, file: &mut F)
    ensures
        final(file).sink() == program_parameters(old(file).sink()),
{
    emit(file, "static unsigned short port = 0;");
    emit(file, "module_param(port, ushort, 0);");
    emit(file, "");
    emit(file, "static unsigned int threads = 1;");
    emit(file, "module_param(threads, uint, 0);");
}

} // verus!
