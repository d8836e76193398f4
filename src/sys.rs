//! Results of system calls that report failure by returning -1.
use vstd::prelude::*;

verus! {

#[verifier::external_type_specification]
#[verifier::external_body]
pub struct ExIoError(std::io::Error);

/// Integers returned by system calls, where -1 reports a failure.
pub trait IsMinusOne {
    spec fn spec_is_minus_one(&self) -> bool;

    fn is_minus_one(&self) -> (r: bool)
        ensures
            r == self.spec_is_minus_one(),
    ;
}

impl IsMinusOne for i8 {
    open spec fn spec_is_minus_one(&self) -> bool {
        *self == -1
    }

    fn is_minus_one(&self) -> (r: bool) {
        *self == -1
    }
}

impl IsMinusOne for i16 {
    open spec fn spec_is_minus_one(&self) -> bool {
        *self == -1
    }

    fn is_minus_one(&self) -> (r: bool) {
        *self == -1
    }
}

impl IsMinusOne for i32 {
    open spec fn spec_is_minus_one(&self) -> bool {
        *self == -1
    }

    fn is_minus_one(&self) -> (r: bool) {
        *self == -1
    }
}

impl IsMinusOne for i64 {
    open spec fn spec_is_minus_one(&self) -> bool {
        *self == -1
    }

    fn is_minus_one(&self) -> (r: bool) {
        *self == -1
    }
}

impl IsMinusOne for isize {
    open spec fn spec_is_minus_one(&self) -> bool {
        *self == -1
    }

    fn is_minus_one(&self) -> (r: bool) {
        *self == -1
    }
}

/// Relies on std::io::Error::last_os_error: the error that the calling
/// thread's last failed system call left behind.
#[verifier::external_body]
fn last_os_error() -> std::io::Error {
    std::io::Error::last_os_error()
}

/// Relies on std::io::Error::kind: whether the error is of kind
/// `Interrupted`, that is, a signal arrived before the call completed.
#[verifier::external_body]
fn is_interrupted(e: &std::io::Error) -> bool {
    e.kind() == std::io::ErrorKind::Interrupted
}

/// `t` as a result: the calling thread's last OS error when `t` is -1,
/// `t` itself otherwise.
pub fn cvt<T: IsMinusOne>(t: T) -> (r: Result<T, std::io::Error>)
    ensures
        r is Err <==> t.spec_is_minus_one(),
        r is Ok ==> r->Ok_0 == t,
{
    if t.is_minus_one() {
        Err(last_os_error())
    } else {
        Ok(t)
    }
}

/// Calls `f` until it is not interrupted by a signal, and returns its last
/// result through `cvt`: `Ok` with a value `f` returned that is not -1, or
/// `Err` after `f` returned -1. The retries stop after `u64::MAX`
/// interruptions, with the last of them as the error.
pub fn cvt_r<T: IsMinusOne, F: FnMut() -> T>(mut f: F) -> (r: Result<T, std::io::Error>)
    requires
        forall|g: F| #[trigger] call_requires(g, ()),
    ensures
        r matches Ok(v) ==> !v.spec_is_minus_one() && exists|g: F| call_ensures(g, (), v),
        r is Err ==> exists|g: F, v: T| call_ensures(g, (), v) && v.spec_is_minus_one(),
{
    let mut retries: u64 = 0;
    loop
        invariant
            forall|g: F| #[trigger] call_requires(g, ()),
        decreases u64::MAX - retries,
    {
        let ghost g = f;
        let v = f();
        assert(call_ensures(g, (), v));
        match cvt(v) {
            Err(e) => {
                if !is_interrupted(&e) || retries == u64::MAX {
                    return Err(e);
                }
                retries += 1;
            },
            other => {
                return other;
            },
        }
    }
}

} // verus!
