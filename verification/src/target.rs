//! Serving the instrumented target's requests while it runs.
//!
//! The target calls in for the bytes of each syscall argument it is about to
//! pass, and calls in again when a syscall returns. Holding the current input
//! and copying into the target's memory are the caller's part; this module
//! decides what each request does to the input and which bytes go back.
use vstd::prelude::*;
use crate::input::{AlmondInput, InputState, SyscallID, after_capture, began, served};
use crate::skipped_args::{SkippedArgs, is_skipped, skipped_in};
use crate::syscall_tree::{SyscallTree, prefixes_upto};

verus! {

/// The input state once a request for argument `a` of `s` has been
/// announced: the request for the first argument enters the syscall.
pub open spec fn entered(o: InputState, recorded: Set<Seq<SyscallID>>, s: SyscallID, a: u32) -> InputState {
    if a == 0 {
        began(o, recorded, s)
    } else {
        o
    }
}

/// Announces a request for argument `arg_no` of syscall `syscall_no`: the
/// request for the first argument enters the syscall (see
/// [`AlmondInput::begin_syscall`]).
pub fn enter_request(input: &mut AlmondInput, tree: &mut SyscallTree, syscall_no: i32, arg_no: i32)
    requires
        old(tree).wf(),
    ensures
        final(tree).wf(),
        final(input)@ == entered(old(input)@, old(tree).recorded(), syscall_no as u32, arg_no as u32),
        arg_no as u32 == 0 ==> final(tree).recorded() == old(tree).recorded().union(
            prefixes_upto(
                old(input)@.accessed.push(syscall_no as u32),
                old(input)@.accessed.len() + 1int,
            ),
        ),
        arg_no as u32 != 0 ==> final(tree).recorded() == old(tree).recorded(),
{
    let s: u32 = #[verifier::truncate] (syscall_no as u32);
    let a: u32 = #[verifier::truncate] (arg_no as u32);
    if a == 0 {
        input.begin_syscall(s, tree);
    }
}

/// Serves an announced request for argument `arg_no` of syscall
/// `syscall_no`, whose buffer of `size` bytes holds `buffer` (`None` for a
/// null buffer). A null or empty buffer gets nothing. In capture mode the
/// buffer's bytes are captured into the input and nothing is handed back. A
/// skipped argument gets nothing. Otherwise the input serves `size` bytes,
/// which are handed back to be copied into the buffer.
pub fn serve_request(
    input: &mut AlmondInput,
    skipped: &SkippedArgs,
    syscall_no: i32,
    arg_no: i32,
    size: i32,
    buffer: Option<&[u8]>,
) -> (fill: Option<Vec<u8>>)
    requires
        size >= 0,
        buffer matches Some(b) ==> b@.len() == size,
        ({
            let s = syscall_no as u32;
            let a = arg_no as u32;
            let e = old(input)@;
            &&& (buffer is Some && size > 0 && e.capturing) ==> e.offset_of(s) < usize::MAX
            &&& (buffer is Some && size > 0 && !e.capturing && !skipped_in(
                skipped.registered(),
                s,
                a,
            )) ==> e.readable(s, a)
        }),
    ensures
        ({
            let s = syscall_no as u32;
            let a = arg_no as u32;
            let e = old(input)@;
            &&& (buffer is None || size == 0) ==> (fill is None && final(input)@ == e)
            &&& buffer matches Some(b) ==> ((size > 0 && e.capturing) ==> (fill is None
                && final(input)@ == after_capture(e, s, a, b@)))
            &&& (buffer is Some && size > 0 && !e.capturing && skipped_in(
                skipped.registered(),
                s,
                a,
            )) ==> (fill is None && final(input)@ == e)
            &&& (buffer is Some && size > 0 && !e.capturing && !skipped_in(
                skipped.registered(),
                s,
                a,
            )) ==> (fill matches Some(v) && served(e, final(input)@, s, a, size as usize, v@))
        }),
{
    let s: u32 = #[verifier::truncate] (syscall_no as u32);
    let a: u32 = #[verifier::truncate] (arg_no as u32);
    let len = size as usize;
    let data = match buffer {
        None => {
            return None;
        },
        Some(b) => b,
    };
    if len == 0 {
        return None;
    }
    if input.is_capturing() {
        input.capture(s, a, data);
        return None;
    }
    if is_skipped(skipped, s, a) {
        return None;
    }
    Some(input.get(s, a, len))
}

/// Serves the request of the target for argument `arg_no` of syscall
/// `syscall_no`, whose buffer of `size` bytes holds `buffer` (`None` for a
/// null buffer).
///
/// The first argument of a syscall enters the syscall (see
/// [`AlmondInput::begin_syscall`]). A null or empty buffer then gets nothing.
/// In capture mode the buffer's bytes are captured into the input and
/// nothing is handed back. A skipped argument gets nothing. Otherwise the
/// input serves `size` bytes, which are handed back to be copied into the
/// buffer.
pub fn fuzz(
    input: &mut AlmondInput,
    tree: &mut SyscallTree,
    skipped: &SkippedArgs,
    syscall_no: i32,
    arg_no: i32,
    size: i32,
    buffer: Option<&[u8]>,
) -> (fill: Option<Vec<u8>>)
    requires
        size >= 0,
        old(tree).wf(),
        buffer matches Some(b) ==> b@.len() == size,
        ({
            let s = syscall_no as u32;
            let a = arg_no as u32;
            let e = entered(old(input)@, old(tree).recorded(), s, a);
            &&& (buffer is Some && size > 0 && e.capturing) ==> e.offset_of(s) < usize::MAX
            &&& (buffer is Some && size > 0 && !e.capturing && !skipped_in(
                skipped.registered(),
                s,
                a,
            )) ==> e.readable(s, a)
        }),
    ensures
        final(tree).wf(),
        ({
            let s = syscall_no as u32;
            let a = arg_no as u32;
            let e = entered(old(input)@, old(tree).recorded(), s, a);
            &&& a == 0 ==> final(tree).recorded() == old(tree).recorded().union(
                prefixes_upto(old(input)@.accessed.push(s), old(input)@.accessed.len() + 1int),
            )
            &&& a != 0 ==> final(tree).recorded() == old(tree).recorded()
            &&& (buffer is None || size == 0) ==> (fill is None && final(input)@ == e)
            &&& buffer matches Some(b) ==> ((size > 0 && e.capturing) ==> (fill is None
                && final(input)@ == after_capture(e, s, a, b@)))
            &&& (buffer is Some && size > 0 && !e.capturing && skipped_in(
                skipped.registered(),
                s,
                a,
            )) ==> (fill is None && final(input)@ == e)
            &&& (buffer is Some && size > 0 && !e.capturing && !skipped_in(
                skipped.registered(),
                s,
                a,
            )) ==> (fill matches Some(v) && served(e, final(input)@, s, a, size as usize, v@))
        }),
{
    enter_request(input, tree, syscall_no, arg_no);
    serve_request(input, skipped, syscall_no, arg_no, size, buffer)
}

} // verus!
