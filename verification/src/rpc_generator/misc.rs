//! The numbers behind the values of a module.

use vstd::prelude::*;
use crate::rpc::Value;
use crate::rpc_generator::handle::{Handle, Tables, constant_named, constants_len, lookup};

verus! {

/// The number that a value stands for, following at most `depth` names of
/// constants in a row.
pub open spec fn number_within(tables: Tables, v: Value, depth: nat) -> Option<i64>
    decreases depth,
{
    match v {
        Value::Number(n) => Some(n),
        Value::Identifier(id) => match lookup(tables.constants, id@) {
            Some(next) if depth > 0 => number_within(tables, next, (depth - 1) as nat),
            _ => None,
        },
    }
}

/// The number that a value stands for: itself, or the number of the
/// constant that it names, if the names lead to a number.
pub open spec fn number(tables: Tables, v: Value) -> Option<i64> {
    number_within(tables, v, tables.constants.len())
}

fn value_within(handle: &Handle, v: &Value, depth: usize) -> (found: Option<i64>)
    ensures
        found == number_within(handle@, *v, depth as nat),
    decreases depth,
{
    match v {
        Value::Number(n) => Some(*n),
        Value::Identifier(id) => {
            if depth == 0 {
                return None;
            }
            match constant_named(&handle.constants, id.as_str()) {
                Some(next) => value_within(handle, next, depth - 1),
                None => None,
            }
        },
    }
}

/// The number that a value stands for, if it stands for one.
pub fn value_number(handle: &Handle, v: &Value) -> (found: Option<i64>)
    ensures
        found == number(handle@, *v),
{
    value_within(handle, v, constants_len(&handle.constants))
}

pub fn unwrap_value(handle: &Handle, v: &Value) -> (n: i64)
    requires
        number(handle@, *v) is Some,
    ensures
        number(handle@, *v) == Some(n),
{
    match value_number(handle, v) {
        Some(n) => n,
        None => 0,
    }
}

} // verus!
