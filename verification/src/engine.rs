//! The engine's status codes and compile flags, as `libsqlite3_sys` defines them.

use vstd::prelude::*;

verus! {

/// The status with which the engine reports success.
pub open spec fn spec_status_ok() -> i32 {
    0
}

/// The status with which a step reports that a row is available.
pub open spec fn spec_status_row() -> i32 {
    100
}

/// The status with which a step reports that execution has finished.
pub open spec fn spec_status_done() -> i32 {
    101
}

/// The compile flag that tells the engine that the statement will be kept and reused.
pub open spec fn spec_flag_persistent() -> u32 {
    1
}

/// The compile flag that forbids virtual tables in the statement.
pub open spec fn spec_flag_no_vtab() -> u32 {
    4
}

/// The flags handed to the engine's compiler for a given persistence hint.
pub open spec fn spec_prepare_flags(persistent: bool) -> u32 {
    if persistent {
        5
    } else {
        4
    }
}

/// Reads `libsqlite3_sys::SQLITE_OK`. Trusted: the constant is 0.
#[verifier::external_body]
pub(crate) fn status_ok() -> (r: i32)
    ensures
        r == spec_status_ok(),
{
    libsqlite3_sys::SQLITE_OK
}

/// Reads `libsqlite3_sys::SQLITE_ROW`. Trusted: the constant is 100.
#[verifier::external_body]
pub(crate) fn status_row() -> (r: i32)
    ensures
        r == spec_status_row(),
{
    libsqlite3_sys::SQLITE_ROW
}

/// Reads `libsqlite3_sys::SQLITE_DONE`. Trusted: the constant is 101.
#[verifier::external_body]
pub(crate) fn status_done() -> (r: i32)
    ensures
        r == spec_status_done(),
{
    libsqlite3_sys::SQLITE_DONE
}

/// Reads `libsqlite3_sys::SQLITE_PREPARE_PERSISTENT`. Trusted: the constant is 1.
#[verifier::external_body]
pub(crate) fn flag_persistent() -> (r: u32)
    ensures
        r == spec_flag_persistent(),
{
    libsqlite3_sys::SQLITE_PREPARE_PERSISTENT
}

/// Reads `libsqlite3_sys::SQLITE_PREPARE_NO_VTAB`. Trusted: the constant is 4.
#[verifier::external_body]
pub(crate) fn flag_no_vtab() -> (r: u32)
    ensures
        r == spec_flag_no_vtab(),
{
    libsqlite3_sys::SQLITE_PREPARE_NO_VTAB
}

/// The flags for the engine's compiler: virtual tables are always refused, and
/// the persistence hint is passed on. The hint is advisory: nothing else in
/// this library depends on it.
pub fn prepare_flags(persistent: bool) -> (flags: u32)
    ensures
        flags == spec_prepare_flags(persistent),
{
    let base: u32 = flag_no_vtab();
    if persistent {
        let hint: u32 = flag_persistent();
        assert(4u32 | 1u32 == 5u32) by (bit_vector);
        base | hint
    } else {
        base
    }
}

/// Whether a status of the engine's compiler or of a bind call means success.
pub fn succeeded(status: i32) -> (ok: bool)
    ensures
        ok == (status == spec_status_ok()),
{
    status == status_ok()
}

} // verus!
