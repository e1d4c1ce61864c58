//! The guest-runtime syscall surface.
//!
//! A host call is identified by an integer code placed in register `a7`;
//! its parameters travel in registers `a0..a2` and the result comes back in
//! `a0`. This module computes the register frame of each call and decodes
//! the raw result; issuing the machine-level `ecall` is the runtime's
//! affair, and a buffer's address is filled in at the call site.

use vstd::prelude::*;

verus! {

/// Code of the host call that writes a log line to the console.
pub const WRITE_LOG_CODE: u32 = 512;

/// Code of the host call that ends the guest program.
pub const EXIT_CODE: u32 = 513;

/// Code of the host call that reads one byte off the private input tape.
pub const READ_PRIVATE_INPUT_CODE: u32 = 1024;

/// Code of the host call that records a cycle-count span.
pub const CYCLE_COUNT_CODE: u32 = 1025;

/// The sentinel the private-input call returns when the tape is exhausted.
pub const PRIVATE_INPUT_EXHAUSTED: u32 = 0xFFFF_FFFF;

/// The register frame of one host call: the code for `a7` and the values
/// for `a0`, `a1` and `a2`. Where a parameter is a buffer address, the
/// frame holds 0 and the call site substitutes the address.
#[derive(Clone, Copy, Debug, PartialEq, Eq, Structural)]
pub struct SyscallFrame {
    pub code: u32,
    pub arg0: u32,
    pub arg1: u32,
    pub arg2: u32,
}

/// The frame of a write-log call: file descriptor 1, the buffer address in
/// `a1` (left for the call site), and the buffer length in `a2`.
pub fn write_log(len: u32) -> (f: SyscallFrame)
    ensures
        f == (SyscallFrame { code: WRITE_LOG_CODE, arg0: 1, arg1: 0, arg2: len }),
{
    SyscallFrame { code: WRITE_LOG_CODE, arg0: 1, arg1: 0, arg2: len }
}

/// The frame of an exit call: the exit code in `a0`.
pub fn exit(exit_code: u32) -> (f: SyscallFrame)
    ensures
        f == (SyscallFrame { code: EXIT_CODE, arg0: exit_code, arg1: 0, arg2: 0 }),
{
    SyscallFrame { code: EXIT_CODE, arg0: exit_code, arg1: 0, arg2: 0 }
}

/// The frame of a private-input read: no parameters carry information.
pub fn read_private_input_frame() -> (f: SyscallFrame)
    ensures
        f == (SyscallFrame { code: READ_PRIVATE_INPUT_CODE, arg0: 0, arg1: 0, arg2: 0 }),
{
    SyscallFrame { code: READ_PRIVATE_INPUT_CODE, arg0: 0, arg1: 0, arg2: 0 }
}

/// The frame of a cycle-count call: the name buffer's address in `a0` (left
/// for the call site) and its length in `a1`.
pub fn cycle_count_ecall(len: u32) -> (f: SyscallFrame)
    ensures
        f == (SyscallFrame { code: CYCLE_COUNT_CODE, arg0: 0, arg1: len, arg2: 0 }),
{
    SyscallFrame { code: CYCLE_COUNT_CODE, arg0: 0, arg1: len, arg2: 0 }
}

/// Decodes what a private-input read put in `a0`: the all-ones sentinel
/// means the tape is exhausted; any other value carries the next byte in
/// its lowest 8 bits.
pub fn read_from_private_input(response: u32) -> (r: Option<u8>)
    ensures
        response == PRIVATE_INPUT_EXHAUSTED ==> r is None,
        response != PRIVATE_INPUT_EXHAUSTED ==> r == Some((response % 0x100) as u8),
{
    if response == PRIVATE_INPUT_EXHAUSTED {
        None
    } else {
        Some((response % 0x100) as u8)
    }
}

} // verus!
