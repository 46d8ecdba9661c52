//! The descriptor of one version for the client, and the table of its
//! procedures.

use vstd::prelude::*;
use crate::rpc::{Procedure, Value, Version, version_procedures, procedures_entry, procedures_len};
use crate::rpc_generator::file::{File, Sink, emit, emit3};
use crate::rpc_generator::handle::{Handle, Tables};
use crate::rpc_generator::types::printables::{constant_lines, print_constant};
use crate::rpc_generator::program::client::procedure::{generate_procedure_declaration, procedure_declaration};

verus! {

/// The sink with the announcement of the descriptor of the version.
pub open spec fn version_definition(s: Sink, version: Version) -> Sink {
    s
        .put("extern const struct rpc_version "@ + version.name@ + "_version;"@)
}

pub fn generate_version_definition<F: File>(_handle: &Handle, file: &mut F, version: &Version)
    ensures
        final(file).sink() == version_definition(old(file).sink(), *version),
{
    emit3(file, "extern const struct rpc_version ", version.name.as_str(), "_version;");
}

/// The sink with the descriptor of the version.
pub open spec fn version_declaration(s: Sink, version: Version) -> Sink {
    s
        .put("static unsigned int "@ + version.name@ + "_call_count = 0;"@)
        .put("const struct rpc_version "@ + version.name@ + "_version = {"@)
        .put("    .number = "@ + version.name@ + ","@)
        .put("    .nrprocs = ARRAY_SIZE("@ + version.name@ + "_procedures),"@)
        .put("    .procs = "@ + version.name@ + "_procedures,"@)
        .put("    .counts = &"@ + version.name@ + "_call_count,"@)
        .put("};"@)
}

pub fn generate_version_declaraion<F: File>(_handle: &Handle, file: &mut F, version: &Version)
    ensures
        final(file).sink() == version_declaration(old(file).sink(), *version),
{
    emit3(file, "static unsigned int ", version.name.as_str(), "_call_count = 0;");
    emit3(file, "const struct rpc_version ", version.name.as_str(), "_version = {");
    emit3(file, "    .number = ", version.name.as_str(), ",");
    emit3(file, "    .nrprocs = ARRAY_SIZE(", version.name.as_str(), "_procedures),");
    emit3(file, "    .procs = ", version.name.as_str(), "_procedures,");
    emit3(file, "    .counts = &", version.name.as_str(), "_call_count,");
    emit(file, "};");
}

/// The sink with the announcement of the table of procedures.
pub open spec fn procedures_array_definition(s: Sink, version: Version) -> Sink {
    s
        .put("extern const struct rpc_procinfo "@ + version.name@ + "_procedures[];"@)
}

pub fn generate_version_procedures_array_definition<F: File>(_handle: &Handle, file: &mut F, version: &Version)
    ensures
        final(file).sink() == procedures_array_definition(old(file).sink(), *version),
{
    emit3(file, "extern const struct rpc_procinfo ", version.name.as_str(), "_procedures[];");
}

/// The sink with the entries of the first `n` procedures in the table of
/// the version `ver`.
pub open spec fn procedure_entries(s: Sink, procedures: Seq<(Value, Procedure)>, n: nat, tables: Tables, ver: Seq<char>) -> Sink
    decreases n,
{
    if n == 0 || n > procedures.len() {
        s
    } else {
        let s = procedure_entries(s, procedures, (n - 1) as nat, tables, ver);
        procedure_declaration(s, tables, procedures[n - 1].1, ver)
    }
}

/// The sink with the table of the procedures of the version, in order.
pub open spec fn procedures_array_declaration(s: Sink, tables: Tables, version: Version) -> Sink {
    let s = s
        .put("const struct rpc_procinfo "@ + version.name@ + "_procedures[] = {"@);
    let s = procedure_entries(s, version_procedures(version.procedures), version_procedures(version.procedures).len(), tables, version.name@);
    s
        .put("};"@)
}

pub fn generate_version_procedures_array_declaration<F: File>(handle: &Handle, file: &mut F, version: &Version)
    requires
        handle@.supports_version(*version),
    ensures
        final(file).sink() == procedures_array_declaration(old(file).sink(), handle@, *version),
{
    emit3(file, "const struct rpc_procinfo ", version.name.as_str(), "_procedures[] = {");
    let ghost start = file.sink();
    let n = procedures_len(&version.procedures);
    let mut i: usize = 0;
    while i < n
        invariant
            n == version_procedures(version.procedures).len(),
            i <= n,
            handle@.supports_version(*version),
            file.sink() == procedure_entries(start, version_procedures(version.procedures), i as nat, handle@, version.name@),
        decreases n - i,
    {
        match procedures_entry(&version.procedures, i) {
            Some((_, procedure)) => {
                generate_procedure_declaration(handle, file, procedure, version.name.as_str());
            },
            None => {},
        }
        i = i + 1;
    }
    emit(file, "};");
}

/// The sink with the numbers of the first `n` procedures, each defined
/// under the name of its procedure.
pub open spec fn procedure_numbers(s: Sink, procedures: Seq<(Value, Procedure)>, n: nat) -> Sink
    decreases n,
{
    if n == 0 || n > procedures.len() {
        s
    } else {
        let s = procedure_numbers(s, procedures, (n - 1) as nat);
        constant_lines(s, procedures[n - 1].1.name@, procedures[n - 1].0)
    }
}

/// The sink with the numbers of the procedures of the version.
pub open spec fn version_constants(s: Sink, version: Version) -> Sink {
    procedure_numbers(s, version_procedures(version.procedures), version_procedures(version.procedures).len())
}

pub fn generate_version_constants<F: File>(_handle: &Handle, file: &mut F, version: &Version)
    ensures
        final(file).sink() == version_constants(old(file).sink(), *version),
{
    let ghost start = file.sink();
    let n = procedures_len(&version.procedures);
    let mut i: usize = 0;
    while i < n
        invariant
            n == version_procedures(version.procedures).len(),
            i <= n,
            file.sink() == procedure_numbers(start, version_procedures(version.procedures), i as nat),
        decreases n - i,
    {
        match procedures_entry(&version.procedures, i) {
            Some((value, procedure)) => {
                print_constant(file, procedure.name.as_str(), value);
            },
            None => {},
        }
        i = i + 1;
    }
}

} // verus!
