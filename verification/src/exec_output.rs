//! What a command gave back, and why it did not run to its end.

use vstd::prelude::*;

verus! {

/// One stream of a command's output, as text.
#[derive(Debug, PartialEq, Eq)]
pub struct StreamOutput {
    pub text: String,
    pub truncated_after_lines: Option<u32>,
}

/// What a command gave back.
#[derive(Debug, PartialEq, Eq)]
pub struct ExecToolCallOutput {
    pub exit_code: i32,
    pub stdout: StreamOutput,
    pub stderr: StreamOutput,
    pub aggregated_output: StreamOutput,
    /// In nanoseconds.
    pub duration: u128,
    pub timed_out: bool,
}

/// A decision on the network that was made while a command ran, which the host
/// keeps under a number.
#[derive(Clone, Copy, Debug, PartialEq, Eq, Structural)]
pub struct NetworkPolicyDecision {
    pub number: u64,
}

/// How the sandbox ended a command.
#[derive(Debug, PartialEq, Eq)]
pub enum SandboxErr {
    /// It ran past its time limit.
    Timeout { output: ExecToolCallOutput },
    /// It did what the sandbox does not let it do.
    Denied {
        output: ExecToolCallOutput,
        network_policy_decision: Option<NetworkPolicyDecision>,
    },
}

/// What went wrong while a command ran.
#[derive(Debug, PartialEq, Eq)]
pub enum CodexErr {
    Sandbox(SandboxErr),
    /// Anything else, by its message.
    Other(String),
}

/// Why a command did not run to its end.
#[derive(Debug, PartialEq, Eq)]
pub enum ToolError {
    /// It was not let run, or was ended.
    Rejected(String),
    Codex(CodexErr),
}

impl ToolError {
    /// The error is a rejection with the given message.
    pub open spec fn rejects(self, text: Seq<char>) -> bool {
        match self {
            ToolError::Rejected(message) => message@ == text,
            ToolError::Codex(_) => false,
        }
    }
}

/// `decode` makes `text` of the bytes.
pub open spec fn decodes_to<D: Fn(&Vec<u8>) -> String>(
    decode: D,
    bytes: Seq<u8>,
    text: String,
) -> bool {
    exists|raw: &Vec<u8>| raw@ == bytes && #[trigger] call_ensures(decode, (raw,), text)
}

/// The stream holds the text that `decode` makes of the bytes.
pub open spec fn decodes<D: Fn(&Vec<u8>) -> String>(
    stream: StreamOutput,
    bytes: Seq<u8>,
    decode: D,
) -> bool {
    decodes_to(decode, bytes, stream.text) && stream.truncated_after_lines is None
}

/// The output holds the given streams as text. `lossy` decodes a single stream,
/// and `smart` both streams together.
pub open spec fn shows<L: Fn(&Vec<u8>) -> String, S: Fn(&Vec<u8>) -> String>(
    output: ExecToolCallOutput,
    stdout: Seq<u8>,
    stderr: Seq<u8>,
    aggregated: Seq<u8>,
    lossy: L,
    smart: S,
) -> bool {
    &&& decodes(output.stdout, stdout, lossy)
    &&& decodes(output.stderr, stderr, lossy)
    &&& decodes(output.aggregated_output, aggregated, smart)
}

/// The output of a command, from the bytes of its streams. `lossy` decodes a
/// single stream, and `smart` both streams together.
pub fn shell_output<L: Fn(&Vec<u8>) -> String, S: Fn(&Vec<u8>) -> String>(
    stdout: &Vec<u8>,
    stderr: &Vec<u8>,
    aggregated_output: &Vec<u8>,
    exit_code: i32,
    duration: u128,
    timed_out: bool,
    lossy: L,
    smart: S,
) -> (output: ExecToolCallOutput)
    requires
        forall|bytes: &Vec<u8>| call_requires(lossy, (bytes,)),
        forall|bytes: &Vec<u8>| call_requires(smart, (bytes,)),
    ensures
        shows(output, stdout@, stderr@, aggregated_output@, lossy, smart),
        output.exit_code == exit_code,
        output.duration == duration,
        output.timed_out == timed_out,
{
    let stdout_text = lossy(stdout);
    let stderr_text = lossy(stderr);
    let aggregated_text = smart(aggregated_output);
    assert(decodes_to(lossy, stdout@, stdout_text));
    assert(decodes_to(lossy, stderr@, stderr_text));
    assert(decodes_to(smart, aggregated_output@, aggregated_text));
    ExecToolCallOutput {
        exit_code,
        stdout: StreamOutput { text: stdout_text, truncated_after_lines: None },
        stderr: StreamOutput { text: stderr_text, truncated_after_lines: None },
        aggregated_output: StreamOutput { text: aggregated_text, truncated_after_lines: None },
        duration,
        timed_out,
    }
}

/// Each stream of the output is shown as the text that is made of all its bytes:
/// the standard output and the error output each by `lossy`, and both together by
/// `smart`. No stream is said to be cut. The exit code, the duration and whether
/// the time ran out are as given.
pub proof fn law_output_shows_each_stream<
    L: Fn(&Vec<u8>) -> String,
    S: Fn(&Vec<u8>) -> String,
>(
    stdout: Vec<u8>,
    stderr: Vec<u8>,
    aggregated: Vec<u8>,
    exit_code: i32,
    duration: u128,
    timed_out: bool,
    lossy: L,
    smart: S,
    output: ExecToolCallOutput,
)
    requires
        call_ensures(
            shell_output::<L, S>,
            (&stdout, &stderr, &aggregated, exit_code, duration, timed_out, lossy, smart),
            output,
        ),
    ensures
        exists|raw: &Vec<u8>|
            raw@ == stdout@ && #[trigger] call_ensures(lossy, (raw,), output.stdout.text),
        exists|raw: &Vec<u8>|
            raw@ == stderr@ && #[trigger] call_ensures(lossy, (raw,), output.stderr.text),
        exists|raw: &Vec<u8>|
            raw@ == aggregated@ && #[trigger] call_ensures(
                smart,
                (raw,),
                output.aggregated_output.text,
            ),
        output.stdout.truncated_after_lines is None,
        output.stderr.truncated_after_lines is None,
        output.aggregated_output.truncated_after_lines is None,
        output.exit_code == exit_code,
        output.duration == duration,
        output.timed_out == timed_out,
{
}

} // verus!
