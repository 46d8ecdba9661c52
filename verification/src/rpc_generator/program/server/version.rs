//! The descriptor of one version for the server, and the table of its
//! procedures.

use vstd::prelude::*;
use crate::rpc::{Procedure, Value, Version, version_procedures, procedures_entry, procedures_len};
use crate::rpc_generator::file::{File, Sink, emit, emit3};
use crate::rpc_generator::handle::{Handle, Tables};
use crate::rpc_generator::types::printables::{constant_lines, print_constant};
use crate::rpc_generator::types::{arguments_size, arguments_size_text};
use crate::rpc_generator::types::asc;
use crate::text::same_text;
use crate::rpc_generator::program::server::procedure::{generate_procedure_declaration, procedure_declaration};
use crate::text::cat5;

verus! {

/// The sink with the announcement of the descriptor of the version.
pub open spec fn version_definition(s: Sink, version: Version) -> Sink {
    s
        .put("extern const struct svc_version "@ + version.name@ + "_version;"@)
}

pub fn generate_version_definition<F: File>(_handle: &Handle, file: &mut F, version: &Version)
    ensures
        final(file).sink() == version_definition(old(file).sink(), *version),
{
    emit3(file, "extern const struct svc_version ", version.name.as_str(), "_version;");
}

/// The greatest of the sizes of the arguments of the first `n` procedures,
/// those of size `0` left out, if any is left.
pub open spec fn greatest_arguments(tables: Tables, procedures: Seq<(Value, Procedure)>, n: nat) -> Option<
    Seq<char>,
>
    decreases n,
{
    if n == 0 || n > procedures.len() {
        None
    } else {
        let greatest = greatest_arguments(tables, procedures, (n - 1) as nat);
        let size = arguments_size_text(tables, procedures[n - 1].1.arguments@);
        if size == "0"@ {
            greatest
        } else {
            match greatest {
                Some(a) => Some("STATIC_MAX(("@ + a + "), ("@ + size + "))"@),
                None => Some(size),
            }
        }
    }
}

/// The C expression of the greatest wire size that the arguments of a
/// procedure of the version take, `0` where none takes any.
pub open spec fn version_arguments_size(tables: Tables, version: Version) -> Seq<char> {
    match greatest_arguments(
        tables,
        version_procedures(version.procedures),
        version_procedures(version.procedures).len(),
    ) {
        Some(size) => size,
        None => "0"@,
    }
}

fn arguments_greatest(handle: &Handle, version: &Version) -> (text: String)
    requires
        handle@.supports_version(*version),
    ensures
        text@ == version_arguments_size(handle@, *version),
{
    let n = procedures_len(&version.procedures);
    let mut greatest: Option<String> = None;
    let mut i: usize = 0;
    while i < n
        invariant
            n == version_procedures(version.procedures).len(),
            i <= n,
            handle@.supports_version(*version),
            asc::opt_text(greatest) == greatest_arguments(
                handle@,
                version_procedures(version.procedures),
                i as nat,
            ),
        decreases n - i,
    {
        match procedures_entry(&version.procedures, i) {
            Some((_, procedure)) => {
                assert(handle@.supports_procedure(version_procedures(version.procedures)[i as int].1));
                let size = arguments_size(handle, procedure);
                if !same_text("0", size.as_str()) {
                    greatest = match greatest {
                        Some(a) => Some(cat5("STATIC_MAX((", a.as_str(), "), (", size.as_str(), "))")),
                        None => Some(size),
                    };
                }
            },
            None => {},
        }
        i = i + 1;
    }
    match greatest {
        Some(size) => size,
        None => String::from_str("0"),
    }
}

/// The sink with the descriptor of the version, which names the greatest
/// size of the arguments of its procedures.
pub open spec fn version_declaration(s: Sink, tables: Tables, version: Version) -> Sink {
    s
        .put("static unsigned long "@ + version.name@ + "_call_count = 0;"@)
        .put("const struct svc_version "@ + version.name@ + "_version = {"@)
        .put("    .vs_vers = "@ + version.name@ + ","@)
        .put("    .vs_nproc = ARRAY_SIZE("@ + version.name@ + "_procedures),"@)
        .put("    .vs_proc = "@ + version.name@ + "_procedures,"@)
        .put("    .vs_count = &"@ + version.name@ + "_call_count,"@)
        .put("    .vs_dispatch = dispatch,"@)
        .put("    .vs_xdrsize = AUTH_HANDLE_SIZE+"@ + version_arguments_size(tables, version) + ","@)
        .put("    .vs_hidden = false,"@)
        .put("    .vs_rpcb_optnl = false,"@)
        .put("    .vs_need_cong_ctrl = false"@)
        .put("};"@)
}

pub fn generate_version_declaraion<F: File>(handle: &Handle, file: &mut F, version: &Version)
    requires
        handle@.supports_version(*version),
    ensures
        final(file).sink() == version_declaration(old(file).sink(), handle@, *version),
{
    let argsize = arguments_greatest(handle, version);
    emit3(file, "static unsigned long ", version.name.as_str(), "_call_count = 0;");
    emit3(file, "const struct svc_version ", version.name.as_str(), "_version = {");
    emit3(file, "    .vs_vers = ", version.name.as_str(), ",");
    emit3(file, "    .vs_nproc = ARRAY_SIZE(", version.name.as_str(), "_procedures),");
    emit3(file, "    .vs_proc = ", version.name.as_str(), "_procedures,");
    emit3(file, "    .vs_count = &", version.name.as_str(), "_call_count,");
    emit(file, "    .vs_dispatch = dispatch,");
    emit3(file, "    .vs_xdrsize = AUTH_HANDLE_SIZE+", argsize.as_str(), ",");
    emit(file, "    .vs_hidden = false,");
    emit(file, "    .vs_rpcb_optnl = false,");
    emit(file, "    .vs_need_cong_ctrl = false");
    emit(file, "};");
}

/// The sink with the entries of the first `n` procedures in the table of
/// the version `ver`.
pub open spec fn procedure_entries(s: Sink, procedures: Seq<(Value, Procedure)>, n: nat, tables: Tables, ver: Seq<char>) -> Sink
    decreases n,
{
    if n == 0 || n > procedures.len() {
        s
    } else {
        let s = procedure_entries(s, procedures, (n - 1) as nat, tables, ver);
        procedure_declaration(s, tables, procedures[n - 1].1, ver)
    }
}

/// The sink with the table of the procedures of the version, in order.
pub open spec fn procedures_array(s: Sink, tables: Tables, version: Version) -> Sink {
    let s = s
        .put("static const struct svc_procedure "@ + version.name@ + "_procedures[] = {"@);
    let s = procedure_entries(s, version_procedures(version.procedures), version_procedures(version.procedures).len(), tables, version.name@);
    s
        .put("};"@)
}

pub fn generate_version_procedures_array<F: File>(handle: &Handle, file: &mut F, version: &Version)
    requires
        handle@.supports_version(*version),
    ensures
        final(file).sink() == procedures_array(old(file).sink(), handle@, *version),
{
    emit3(file, "static const struct svc_procedure ", version.name.as_str(), "_procedures[] = {");
    let ghost start = file.sink();
    let n = procedures_len(&version.procedures);
    let mut i: usize = 0;
    while i < n
        invariant
            n == version_procedures(version.procedures).len(),
            i <= n,
            handle@.supports_version(*version),
            file.sink() == procedure_entries(start, version_procedures(version.procedures), i as nat, handle@, version.name@),
        decreases n - i,
    {
        match procedures_entry(&version.procedures, i) {
            Some((_, procedure)) => {
                assert(handle@.supports_procedure(version_procedures(version.procedures)[i as int].1));
                generate_procedure_declaration(handle, file, procedure, version.name.as_str());
            },
            None => {},
        }
        i = i + 1;
    }
    emit(file, "};");
}

/// The sink with the numbers of the first `n` procedures, each defined
/// under the name of its procedure.
pub open spec fn procedure_numbers(s: Sink, procedures: Seq<(Value, Procedure)>, n: nat) -> Sink
    decreases n,
{
    if n == 0 || n > procedures.len() {
        s
    } else {
        let s = procedure_numbers(s, procedures, (n - 1) as nat);
        constant_lines(s, procedures[n - 1].1.name@, procedures[n - 1].0)
    }
}

/// The sink with the numbers of the procedures of the version.
pub open spec fn version_constants(s: Sink, version: Version) -> Sink {
    procedure_numbers(s, version_procedures(version.procedures), version_procedures(version.procedures).len())
}

pub fn generate_version_constants<F: File>(_handle: &Handle, file: &mut F, version: &Version)
    ensures
        final(file).sink() == version_constants(old(file).sink(), *version),
{
    let ghost start = file.sink();
    let n = procedures_len(&version.procedures);
    let mut i: usize = 0;
    while i < n
        invariant
            n == version_procedures(version.procedures).len(),
            i <= n,
            file.sink() == procedure_numbers(start, version_procedures(version.procedures), i as nat),
        decreases n - i,
    {
        match procedures_entry(&version.procedures, i) {
            Some((value, procedure)) => {
                print_constant(file, procedure.name.as_str(), value);
            },
            None => {},
        }
        i = i + 1;
    }
}

} // verus!
