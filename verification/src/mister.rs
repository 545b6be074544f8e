//! Commands to the MiSTer main binary through its command FIFO.
use vstd::prelude::*;
use crate::text::{concat2, concat3, decimal, decimal_string};

verus! {

/// The command that sets the FPGA framebuffer to 32-bit color at full scale.
pub fn fb_mode_command() -> (c: &'static str)
    ensures
        c@ == "fb_cmd0 8888 1 1\n"@,
{
    "fb_cmd0 8888 1 1\n"
}

/// How a write of a command went.
#[derive(Debug, Clone, Copy, PartialEq, Eq, Structural)]
pub enum CommandWrite {
    /// The write failed.
    Failed,
    /// Only part of the command was written.
    Partial,
    /// The whole command was written.
    Complete,
}

/// Classify what `write` returned for a command of `len` bytes.
pub fn classify_write(written: isize, len: usize) -> (r: CommandWrite)
    ensures
        written < 0 ==> r == CommandWrite::Failed,
        written >= 0 && written != len ==> r == CommandWrite::Partial,
        written >= 0 && written == len ==> r == CommandWrite::Complete,
{
    if written < 0 {
        CommandWrite::Failed
    } else if written as usize != len {
        CommandWrite::Partial
    } else {
        CommandWrite::Complete
    }
}

/// The message for a partial write.
pub open spec fn partial_write_message_of(written: nat, len: nat) -> Seq<char> {
    "Partial write to MiSTer_cmd: "@ + decimal(written) + " of "@ + decimal(len) + " bytes"@
}

/// The message for a partial write of `written` of `len` bytes.
pub fn partial_write_message(written: usize, len: usize) -> (m: String)
    ensures
        m@ == partial_write_message_of(written as nat, len as nat),
{
    let w = decimal_string(written as u64);
    let l = decimal_string(len as u64);
    let head = concat3("Partial write to MiSTer_cmd: ", w.as_str(), " of ");
    let body = concat2(head.as_str(), l.as_str());
    concat2(body.as_str(), " bytes")
}

} // verus!
