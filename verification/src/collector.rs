//! Pieces of the collector set-up: the states of the collector builder, and the error of
//! setting the global collector twice.

use vstd::prelude::*;
use vstd::string::StringSliceAdditionalSpecFns;
use vstd::utf8::is_char_boundary;

verus! {

/// Builder state: no process id chosen yet.
#[derive(Debug)]
pub struct NoProcessId;

/// Builder state: a process id was chosen.
#[derive(Debug)]
pub struct WithProcessId;

/// Builder state: no exporter chosen yet.
#[derive(Debug)]
pub struct NoExporter;

/// Builder state: an exporter was chosen.
#[derive(Debug)]
pub struct WithExporter;

/// Builder state: no time source chosen yet.
#[derive(Debug)]
pub struct NoTime;

/// Builder state: a time source was chosen.
#[derive(Debug)]
pub struct WithTime;

/// Builder state: no thread source chosen yet.
#[derive(Debug)]
pub struct NoThread;

/// Builder state: a thread source was chosen.
#[derive(Debug)]
pub struct WithThread;

/// The error of setting the global collector when one is already set.
#[derive(Debug, Clone, Copy, PartialEq, Eq)]
pub struct SetGlobalError(());

impl SetGlobalError {
    /// The error.
    pub fn new() -> Self {
        SetGlobalError(())
    }

    /// The error's message.
    pub fn message(&self) -> (r: &'static str)
        ensures
            r@ == "a global exporter has already been set"@,
    {
        "a global exporter has already been set"
    }
}

/// Removes the `::{{closure}}` suffix (13 bytes) that naming a function from inside a closure
/// leaves, twice for an async closure.
pub fn strip_closure_suffix(name: &'static str, async_closure: bool) -> (r: &'static str)
    requires
        13 <= name.spec_bytes().len() <= usize::MAX,
        is_char_boundary(name.spec_bytes(), name.spec_bytes().len() - 13),
        async_closure ==> name.spec_bytes().len() >= 26 && is_char_boundary(
            name.spec_bytes().subrange(0, name.spec_bytes().len() - 13),
            name.spec_bytes().len() - 26,
        ),
    ensures
        r.spec_bytes() == name.spec_bytes().subrange(
            0,
            name.spec_bytes().len() - if async_closure {
                26int
            } else {
                13int
            },
        ),
{
    let first = name.split_at(name.len() - 13).0;
    if async_closure {
        let r = first.split_at(first.len() - 13).0;
        assert(r.spec_bytes() =~= name.spec_bytes().subrange(0, name.spec_bytes().len() - 26));
        r
    } else {
        first
    }
}

} // verus!
