//! The Makefile that builds the modules of every program.

use vstd::prelude::*;
use crate::rpc::{Program, Value, Version, program_versions, versions_entry, versions_len};
use crate::rpc_generator::file::{File, Sink, emit, emit2, emit3, emit5, emit6};
use crate::rpc_generator::handle::{Handle, Tables, programs_entry, programs_len};

verus! {

/// The sink with the first `n` lines of the list of modules: a server
/// and a client for each program, every line but the last continued.
pub open spec fn module_objects(s: Sink, programs: Seq<(Value, Program)>, n: nat) -> Sink
    decreases n,
{
    if n == 0 || n > programs.len() {
        s
    } else {
        module_objects(s, programs, (n - 1) as nat).put(
            (if n == 1 {
                "obj-m := "@
            } else {
                "         "@
            }) + programs[n - 1].1.name@ + "_server.o "@ + programs[n - 1].1.name@ + "_api.o"@ + (if n
                == programs.len() {
                ""@
            } else {
                " \\"@
            }),
        )
    }
}

/// The sink with the objects of the first `n` versions of the server of the
/// program `pname`.
pub open spec fn server_version_objects(s: Sink, versions: Seq<(Value, Version)>, n: nat, pname: Seq<char>) -> Sink
    decreases n,
{
    if n == 0 || n > versions.len() {
        s
    } else {
        let s = server_version_objects(s, versions, (n - 1) as nat, pname);
        s
            .put("    servers/"@ + pname + "/"@ + versions[n - 1].1.name@ + "/procedure_handlers.o \\"@)
            .put("    servers/"@ + pname + "/"@ + versions[n - 1].1.name@ + "/procedure_xdr.o \\"@)
            .put("    servers/"@ + pname + "/"@ + versions[n - 1].1.name@ + "/version.o \\"@)
    }
}

/// The sink with the objects that make up the server module of a program.
pub open spec fn server_objects_lines(s: Sink, program: Program) -> Sink {
    let s = s
        .put(program.name@ + "_server-objs := \\"@)
        .put("    servers/"@ + program.name@ + "/authentication.o \\"@)
        .put("    servers/"@ + program.name@ + "/program.o \\"@);
    let s = server_version_objects(s, program_versions(program.versions), program_versions(program.versions).len(), program.name@);
    s
        .put("    servers/common.o"@)
        .put(""@)
}

pub fn server_objects<F: File>(file: &mut F, program: &Program)
    ensures
        final(file).sink() == server_objects_lines(old(file).sink(), *program),
{
    emit2(file, program.name.as_str(), "_server-objs := \\");
    emit3(file, "    servers/", program.name.as_str(), "/authentication.o \\");
    emit3(file, "    servers/", program.name.as_str(), "/program.o \\");
    let ghost start = file.sink();
    let n = versions_len(&program.versions);
    let mut i: usize = 0;
    while i < n
        invariant
            n == program_versions(program.versions).len(),
            i <= n,
            file.sink() == server_version_objects(start, program_versions(program.versions), i as nat, program.name@),
        decreases n - i,
    {
        match versions_entry(&program.versions, i) {
            Some((_, version)) => {
                emit5(file, "    servers/", program.name.as_str(), "/", version.name.as_str(), "/procedure_handlers.o \\");
                emit5(file, "    servers/", program.name.as_str(), "/", version.name.as_str(), "/procedure_xdr.o \\");
                emit5(file, "    servers/", program.name.as_str(), "/", version.name.as_str(), "/version.o \\");
            },
            None => {},
        }
        i = i + 1;
    }
    emit(file, "    servers/common.o");
    emit(file, "");
}

/// The sink with the objects of the server modules of the first `n`
/// programs.
pub open spec fn server_modules(s: Sink, programs: Seq<(Value, Program)>, n: nat) -> Sink
    decreases n,
{
    if n == 0 || n > programs.len() {
        s
    } else {
        let s = server_modules(s, programs, (n - 1) as nat);
        server_objects_lines(s, programs[n - 1].1)
    }
}

/// The sink with the objects of the first `n` versions of the client of the
/// program `pname`.
pub open spec fn client_version_objects(s: Sink, versions: Seq<(Value, Version)>, n: nat, pname: Seq<char>) -> Sink
    decreases n,
{
    if n == 0 || n > versions.len() {
        s
    } else {
        let s = client_version_objects(s, versions, (n - 1) as nat, pname);
        s
            .put("    clients/"@ + pname + "/"@ + versions[n - 1].1.name@ + "/procedure_api.o \\"@)
            .put("    clients/"@ + pname + "/"@ + versions[n - 1].1.name@ + "/procedure_xdr.o \\"@)
            .put("    clients/"@ + pname + "/"@ + versions[n - 1].1.name@ + "/version.o \\"@)
    }
}

/// The sink with the objects that make up the client module of a program.
pub open spec fn client_objects_lines(s: Sink, program: Program) -> Sink {
    let s = s
        .put(program.name@ + "_api-objs := \\"@)
        .put("    clients/"@ + program.name@ + "/authentication.o \\"@)
        .put("    clients/"@ + program.name@ + "/program.o \\"@);
    let s = client_version_objects(s, program_versions(program.versions), program_versions(program.versions).len(), program.name@);
    s
        .put("    clients/client.o"@)
        .put(""@)
}

pub fn client_objects<F: File>(file: &mut F, program: &Program)
    ensures
        final(file).sink() == client_objects_lines(old(file).sink(), *program),
{
    emit2(file, program.name.as_str(), "_api-objs := \\");
    emit3(file, "    clients/", program.name.as_str(), "/authentication.o \\");
    emit3(file, "    clients/", program.name.as_str(), "/program.o \\");
    let ghost start = file.sink();
    let n = versions_len(&program.versions);
    let mut i: usize = 0;
    while i < n
        invariant
            n == program_versions(program.versions).len(),
            i <= n,
            file.sink() == client_version_objects(start, program_versions(program.versions), i as nat, program.name@),
        decreases n - i,
    {
        match versions_entry(&program.versions, i) {
            Some((_, version)) => {
                emit5(file, "    clients/", program.name.as_str(), "/", version.name.as_str(), "/procedure_api.o \\");
                emit5(file, "    clients/", program.name.as_str(), "/", version.name.as_str(), "/procedure_xdr.o \\");
                emit5(file, "    clients/", program.name.as_str(), "/", version.name.as_str(), "/version.o \\");
            },
            None => {},
        }
        i = i + 1;
    }
    emit(file, "    clients/client.o");
    emit(file, "");
}

/// The sink with the objects of the client modules of the first `n`
/// programs.
pub open spec fn client_modules(s: Sink, programs: Seq<(Value, Program)>, n: nat) -> Sink
    decreases n,
{
    if n == 0 || n > programs.len() {
        s
    } else {
        let s = client_modules(s, programs, (n - 1) as nat);
        client_objects_lines(s, programs[n - 1].1)
    }
}

/// The sink with the modules that the Makefile builds: the list of them,
/// then for each program the objects of its server, then those of its
/// client.
pub open spec fn make_mod_targets(s: Sink, tables: Tables) -> Sink {
    let s = module_objects(s, tables.programs, tables.programs.len());
    let s = s
        .put(""@);
    let s = server_modules(s, tables.programs, tables.programs.len());
    client_modules(s, tables.programs, tables.programs.len())
}

pub fn generate_make_mod_targets<F: File>(handle: &Handle, file: &mut F)
    requires
        handle@.programs.len() > 0,
    ensures
        final(file).sink() == make_mod_targets(old(file).sink(), handle@),
{
    let ghost start = file.sink();
    let n = programs_len(&handle.programs);
    let mut i: usize = 0;
    while i < n
        invariant
            n == handle@.programs.len(),
            i <= n,
            file.sink() == module_objects(start, handle@.programs, i as nat),
        decreases n - i,
    {
        let lead = if i == 0 {
            "obj-m := "
        } else {
            "         "
        };
        let tail = if i + 1 == n {
            ""
        } else {
            " \\"
        };
        match programs_entry(&handle.programs, i) {
            Some((_, program)) => {
                let name = program.name.as_str();
                emit6(file, lead, name, "_server.o ", name, "_api.o", tail);
            },
            None => {},
        }
        i = i + 1;
    }
    emit(file, "");
    let ghost start_server = file.sink();
    let n_server = programs_len(&handle.programs);
    let mut i_server: usize = 0;
    while i_server < n_server
        invariant
            n_server == handle@.programs.len(),
            i_server <= n_server,
            file.sink() == server_modules(start_server, handle@.programs, i_server as nat),
        decreases n_server - i_server,
    {
        match programs_entry(&handle.programs, i_server) {
            Some((_, program)) => {
                server_objects(file, program);
            },
            None => {},
        }
        i_server = i_server + 1;
    }
    let ghost start_client = file.sink();
    let n_client = programs_len(&handle.programs);
    let mut i_client: usize = 0;
    while i_client < n_client
        invariant
            n_client == handle@.programs.len(),
            i_client <= n_client,
            file.sink() == client_modules(start_client, handle@.programs, i_client as nat),
        decreases n_client - i_client,
    {
        match programs_entry(&handle.programs, i_client) {
            Some((_, program)) => {
                client_objects(file, program);
            },
            None => {},
        }
        i_client = i_client + 1;
    }
}

/// The sink with the Makefile: where the kernel is built, the modules, and
/// the targets that build and clean them.
pub open spec fn make_lines(s: Sink, tables: Tables) -> Sink {
    let s = s
        .put("KVER := $(shell uname -r)"@)
        .put("KDIR := /lib/modules/$(KVER)/build"@)
        .put(""@);
    let s = make_mod_targets(s, tables);
    s
        .put(".PHONY: build clean default"@)
        .put(""@)
        .put("default: build"@)
        .put(""@)
        .put("build:"@)
        .put("\tmake -C $(KDIR) M=$(shell pwd) modules"@)
        .put(""@)
        .put("clean:"@)
        .put("\tmake -C $(KDIR) M=$(shell pwd) clean"@)
}

pub fn generate_make<F: File>(handle: &Handle, file: &mut F)
    requires
        handle@.programs.len() > 0,
    ensures
        final(file).sink() == make_lines(old(file).sink(), handle@),
{
    emit(file, "KVER := $(shell uname -r)");
    emit(file, "KDIR := /lib/modules/$(KVER)/build");
    emit(file, "");
    generate_make_mod_targets(handle, file);
    emit(file, ".PHONY: build clean default");
    emit(file, "");
    emit(file, "default: build");
    emit(file, "");
    emit(file, "build:");
    emit(file, "\tmake -C $(KDIR) M=$(shell pwd) modules");
    emit(file, "");
    emit(file, "clean:");
    emit(file, "\tmake -C $(KDIR) M=$(shell pwd) clean");
}

} // verus!
