//! Commands sent to the running ffmpeg process through its standard input.
use vstd::prelude::*;

verus! {

/// A command for the running ffmpeg process.
pub enum FfmpegStdinCommand {
    /// Ask ffmpeg to stop encoding and exit.
    Stop,
}

/// The bytes that carry `command` on ffmpeg's standard input: `Stop` is the
/// single key `q`, ffmpeg's interactive quit key.
pub open spec fn command_bytes(command: FfmpegStdinCommand) -> Seq<u8> {
    match command {
        FfmpegStdinCommand::Stop => seq!['q' as u8],
    }
}

/// `Stop` is written as exactly one byte, 113, the ASCII code of `q`.
pub proof fn lemma_stop_is_one_q(command: FfmpegStdinCommand)
    ensures
        command_bytes(command).len() == 1,
        command_bytes(command)[0] == 113u8,
{
}

/// The bytes to write to ffmpeg's standard input for `command`.
pub fn stdin_bytes(command: &FfmpegStdinCommand) -> (r: Vec<u8>)
    ensures
        r@ == command_bytes(*command),
{
    match command {
        FfmpegStdinCommand::Stop => {
            let mut bytes: Vec<u8> = Vec::new();
            bytes.push(113u8);
            assert(bytes@ =~= seq!['q' as u8]);
            bytes
        },
    }
}

} // verus!
