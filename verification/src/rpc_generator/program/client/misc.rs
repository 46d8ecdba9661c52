//! What the clients of all programs share: the connection to the server.

use vstd::prelude::*;
use crate::rpc_generator::file::{File, Sink, emit};
use crate::rpc_generator::handle::Handle;

verus! {

/// The sink with the prototypes of the shared client functions.
pub open spec fn client_misc_definition(s: Sink) -> Sink {
    s
        .put("int client_init(const struct rpc_program *program);"@)
        .put("struct rpc_clnt *client_get(void);"@)
        .put("void client_free(void);"@)
}

pub fn generate_client_misc_definition<F: File>(_handle: &Handle, file: &mut F)
    ensures
        final(file).sink() == client_misc_definition(old(file).sink()),
{
    emit(file, "int client_init(const struct rpc_program *program);");
    emit(file, "struct rpc_clnt *client_get(void);");
    emit(file, "void client_free(void);");
}

/// The sink with the shared client functions: the parameters of the
/// module, and the creation, the handing out and the release of the
/// connection.
pub open spec fn client_misc_declaration(s: Sink) -> Sink {
    s
        .put("static unsigned int version = 1;"@)
        .put("module_param(version, uint , 0);"@)
        .put(""@)
        .put("static unsigned int host_ip_size = 4;"@)
        .put("static unsigned char host_ip[4] = {127, 0, 0 ,1};"@)
        .put("module_param_array(host_ip, byte, &host_ip_size, 0);"@)
        .put(""@)
        .put("static unsigned short port = 0;"@)
        .put("module_param(port, ushort, 0);"@)
        .put(""@)
        .put("static __be32 decode_host_ip(void) {"@)
        .put("    __u8 decode_buffer[4];"@)
        .put(""@)
        .put("    for (size_t i = 0; host_ip_size > i; i++) {"@)
        .put("        decode_buffer[i] = host_ip[i];"@)
        .put("    }"@)
        .put(""@)
        .put("    for (size_t i = host_ip_size; 4 > i; i++) {"@)
        .put("        decode_buffer[i] = 0;"@)
        .put("    }"@)
        .put(""@)
        .put("    return *(__be32*)decode_buffer;"@)
        .put("}"@)
        .put(""@)
        .put("static struct rpc_clnt *client = NULL;"@)
        .put(""@)
        .put("int client_init(const struct rpc_program *program) {"@)
        .put("    if (NULL != client) {"@)
        .put("        return 0;"@)
        .put("    }"@)
        .put(""@)
        .put("    struct sockaddr_in sin = {"@)
        .put("        .sin_family      = AF_INET,"@)
        .put("        .sin_addr.s_addr = decode_host_ip(),"@)
        .put("        .sin_addr.s_port = htons(port),"@)
        .put("    };"@)
        .put(""@)
        .put("    struct rpc_create_args args = {"@)
        .put("        .net = &init_net,"@)
        .put("        .protocol = XPRT_TRANSPORT_TCP,"@)
        .put("        .address = (struct sockaddr *)&sin,"@)
        .put("        .addrsize = sizeof(sin),"@)
        .put("        .program = program,"@)
        .put("        .version = version,"@)
        .put("        .authflavor = RPC_AUTH_NULL,"@)
        .put("        .cred = current_cred(),"@)
        .put("        .flags = RPC_CLNT_CREATE_NOPING | RPC_CLNT_CREATE_REUSEPORT,"@)
        .put("    };"@)
        .put(""@)
        .put("    struct rpc_clnt *inner = rpc_create(&args);"@)
        .put("    int rc = 0;"@)
        .put(""@)
        .put("    if (IS_ERR(inner)) {"@)
        .put("        rc = PTR_ERR(inner);"@)
        .put("    } else {"@)
        .put("        client = inner;"@)
        .put("    }"@)
        .put(""@)
        .put("    return rc;"@)
        .put("}"@)
        .put(""@)
        .put("struct rpc_clnt *client_get(void) {"@)
        .put("    return client;"@)
        .put("}"@)
        .put(""@)
        .put("void client_free(void) {"@)
        .put("    if (client) {"@)
        .put("        rpc_shutdown_client(client);"@)
        .put("    }"@)
        .put(""@)
        .put("    client = NULL;"@)
        .put("}"@)
}

pub fn generate_client_misc_declaration<F: File>(_handle: &Handle, file: &mut F)
    ensures
        final(file).sink() == client_misc_declaration(old(file).sink()),
{
    emit(file, "static unsigned int version = 1;");
    emit(file, "module_param(version, uint , 0);");
    emit(file, "");
    emit(file, "static unsigned int host_ip_size = 4;");
    emit(file, "static unsigned char host_ip[4] = {127, 0, 0 ,1};");
    emit(file, "module_param_array(host_ip, byte, &host_ip_size, 0);");
    emit(file, "");
    emit(file, "static unsigned short port = 0;");
    emit(file, "module_param(port, ushort, 0);");
    emit(file, "");
    emit(file, "static __be32 decode_host_ip(void) {");
    emit(file, "    __u8 decode_buffer[4];");
    emit(file, "");
    emit(file, "    for (size_t i = 0; host_ip_size > i; i++) {");
    emit(file, "        decode_buffer[i] = host_ip[i];");
    emit(file, "    }");
    emit(file, "");
    emit(file, "    for (size_t i = host_ip_size; 4 > i; i++) {");
    emit(file, "        decode_buffer[i] = 0;");
    emit(file, "    }");
    emit(file, "");
    emit(file, "    return *(__be32*)decode_buffer;");
    emit(file, "}");
    emit(file, "");
    emit(file, "static struct rpc_clnt *client = NULL;");
    emit(file, "");
    emit(file, "int client_init(const struct rpc_program *program) {");
    emit(file, "    if (NULL != client) {");
    emit(file, "        return 0;");
    emit(file, "    }");
    emit(file, "");
    emit(file, "    struct sockaddr_in sin = {");
    emit(file, "        .sin_family      = AF_INET,");
    emit(file, "        .sin_addr.s_addr = decode_host_ip(),");
    emit(file, "        .sin_addr.s_port = htons(port),");
    emit(file, "    };");
    emit(file, "");
    emit(file, "    struct rpc_create_args args = {");
    emit(file, "        .net = &init_net,");
    emit(file, "        .protocol = XPRT_TRANSPORT_TCP,");
    emit(file, "        .address = (struct sockaddr *)&sin,");
    emit(file, "        .addrsize = sizeof(sin),");
    emit(file, "        .program = program,");
    emit(file, "        .version = version,");
    emit(file, "        .authflavor = RPC_AUTH_NULL,");
    emit(file, "        .cred = current_cred(),");
    emit(file, "        .flags = RPC_CLNT_CREATE_NOPING | RPC_CLNT_CREATE_REUSEPORT,");
    emit(file, "    };");
    emit(file, "");
    emit(file, "    struct rpc_clnt *inner = rpc_create(&args);");
    emit(file, "    int rc = 0;");
    emit(file, "");
    emit(file, "    if (IS_ERR(inner)) {");
    emit(file, "        rc = PTR_ERR(inner);");
    emit(file, "    } else {");
    emit(file, "        client = inner;");
    emit(file, "    }");
    emit(file, "");
    emit(file, "    return rc;");
    emit(file, "}");
    emit(file, "");
    emit(file, "struct rpc_clnt *client_get(void) {");
    emit(file, "    return client;");
    emit(file, "}");
    emit(file, "");
    emit(file, "void client_free(void) {");
    emit(file, "    if (client) {");
    emit(file, "        rpc_shutdown_client(client);");
    emit(file, "    }");
    emit(file, "");
    emit(file, "    client = NULL;");
    emit(file, "}");
}

} // verus!
