//! A command that the exec server of a remote environment runs: what to do next,
//! and what becomes of what the server answers.

use crate::exec_output::{
    shell_output, shows, CodexErr, ExecToolCallOutput, SandboxErr, ToolError,
};
use crate::exec_server::SandboxType;
use crate::runtime::StdoutStream;
use vstd::prelude::*;

verus! {

/// The longest time that one read waits for output, in milliseconds.
pub const READ_WAIT_MS: u64 = 100;

/// The exit code of a command that ran past its time limit.
pub const TIMEOUT_EXIT_CODE: i32 = 124;

/// The exit code of a command that ended without one.
pub const MISSING_EXIT_CODE: i32 = -1;

const NANOS_PER_MILLI: u128 = 1_000_000;

/// Where an exec server got a piece of output from.
#[derive(Clone, Copy, Debug, PartialEq, Eq, Structural)]
pub enum ExecOutputStream {
    Stdout,
    Stderr,
    Pty,
}

/// The stream that a piece of output is shown in.
#[derive(Clone, Copy, Debug, PartialEq, Eq, Structural)]
pub enum DeltaStream {
    Stdout,
    Stderr,
}

/// A piece of output.
#[derive(Debug)]
pub struct OutputChunk {
    pub stream: ExecOutputStream,
    pub chunk: Vec<u8>,
}

/// What an exec server answers to a read.
#[derive(Debug)]
pub struct ReadResponse {
    pub chunks: Vec<OutputChunk>,
    /// The number of the next piece of output.
    pub next_seq: u64,
    pub exited: bool,
    pub exit_code: Option<i32>,
    /// No more output will come.
    pub closed: bool,
    pub failure: Option<String>,
}

/// The event that shows a piece of output while the command runs.
#[derive(Debug)]
pub struct OutputDelta {
    /// The submission that the event belongs to.
    pub id: String,
    pub call_id: String,
    pub stream: DeltaStream,
    pub chunk: Vec<u8>,
}

/// The stream that output is shown in: that of a terminal is shown with the
/// standard output.
pub open spec fn delta_stream(stream: ExecOutputStream) -> DeltaStream {
    match stream {
        ExecOutputStream::Stdout => DeltaStream::Stdout,
        ExecOutputStream::Pty => DeltaStream::Stdout,
        ExecOutputStream::Stderr => DeltaStream::Stderr,
    }
}

impl ExecOutputStream {
    /// The stream that the output is shown in.
    pub fn shown_in(self) -> (stream: DeltaStream)
        ensures
            stream == delta_stream(self),
    {
        match self {
            ExecOutputStream::Stdout => DeltaStream::Stdout,
            ExecOutputStream::Pty => DeltaStream::Stdout,
            ExecOutputStream::Stderr => DeltaStream::Stderr,
        }
    }
}

/// The event shows the piece of output.
pub open spec fn shows_chunk(delta: OutputDelta, chunk: OutputChunk, to: StdoutStream) -> bool {
    &&& delta.id == to.sub_id
    &&& delta.call_id == to.call_id
    &&& delta.stream == delta_stream(chunk.stream)
    &&& delta.chunk@ == chunk.chunk@
}

fn clone_bytes(bytes: &Vec<u8>) -> (copy: Vec<u8>)
    ensures
        copy@ == bytes@,
{
    let copy = bytes.clone();
    assert(copy@ =~= bytes@);
    copy
}

/// The event that shows a piece of output.
pub fn output_delta(stdout_stream: &StdoutStream, chunk: &OutputChunk) -> (delta: OutputDelta)
    ensures
        shows_chunk(delta, *chunk, *stdout_stream),
{
    OutputDelta {
        id: stdout_stream.sub_id.clone(),
        call_id: stdout_stream.call_id.clone(),
        stream: chunk.stream.shown_in(),
        chunk: clone_bytes(&chunk.chunk),
    }
}

/// The first `cap` bytes, or all of them where there are fewer.
pub open spec fn capped(bytes: Seq<u8>, cap: nat) -> Seq<u8> {
    if bytes.len() <= cap {
        bytes
    } else {
        bytes.take(cap as int)
    }
}

/// `held` with as much of `added` behind it as keeps it within `cap` bytes; one that
/// is longer already stays as it is.
pub open spec fn appended(held: Seq<u8>, added: Seq<u8>, cap: nat) -> Seq<u8> {
    if held.len() >= cap {
        held
    } else {
        capped(held + added, cap)
    }
}

/// Appends as much of `src` as keeps `dst` within `cap` bytes. A `dst` that is
/// longer already stays as it is.
pub fn append_capped(dst: &mut Vec<u8>, src: &Vec<u8>, cap: usize)
    ensures
        final(dst)@ == appended(old(dst)@, src@, cap as nat),
{
    let ghost before = dst@;
    if dst.len() >= cap {
        return;
    }
    let remaining: usize = cap - dst.len();
    let taken: usize = if src.len() < remaining {
        src.len()
    } else {
        remaining
    };
    let mut i: usize = 0;
    while i < taken
        invariant
            i <= taken <= src@.len(),
            dst@ == before + src@.take(i as int),
        decreases taken - i,
    {
        dst.push(src[i]);
        assert(dst@ =~= before + src@.take(i + 1));
        i += 1;
    }
    assert(before + src@.take(taken as int) =~= capped(before + src@, cap as nat));
}

/// The output that is shown in the given stream, one piece after the other.
pub open spec fn bytes_in(chunks: Seq<OutputChunk>, stream: DeltaStream) -> Seq<u8>
    decreases chunks.len(),
{
    if chunks.len() == 0 {
        Seq::empty()
    } else {
        let before = bytes_in(chunks.drop_last(), stream);
        if delta_stream(chunks.last().stream) == stream {
            before + chunks.last().chunk@
        } else {
            before
        }
    }
}

/// All output, one piece after the other.
pub open spec fn all_bytes(chunks: Seq<OutputChunk>) -> Seq<u8>
    decreases chunks.len(),
{
    if chunks.len() == 0 {
        Seq::empty()
    } else {
        all_bytes(chunks.drop_last()) + chunks.last().chunk@
    }
}

/// A remote command that is running: the output so far, and where to read on.
pub struct RemoteShell {
    cap: usize,
    stdout: Vec<u8>,
    stderr: Vec<u8>,
    aggregated: Vec<u8>,
    after_seq: Option<u64>,
    exit_code: Option<i32>,
}

/// What is known of a remote command that is running.
pub struct RemoteView {
    /// No stream keeps more bytes than these.
    pub cap: nat,
    pub stdout: Seq<u8>,
    pub stderr: Seq<u8>,
    pub aggregated: Seq<u8>,
    /// The number of the last piece of output that was read.
    pub after_seq: Option<u64>,
    pub exit_code: Option<i32>,
}

impl View for RemoteShell {
    type V = RemoteView;

    closed spec fn view(&self) -> RemoteView {
        RemoteView {
            cap: self.cap as nat,
            stdout: self.stdout@,
            stderr: self.stderr@,
            aggregated: self.aggregated@,
            after_seq: self.after_seq,
            exit_code: self.exit_code,
        }
    }
}

/// What to do next with a remote command.
#[derive(Clone, Copy, Debug, PartialEq, Eq, Structural)]
pub enum RemoteAction {
    /// End it: its access to the network was denied.
    Deny,
    /// End it: it has run past its time limit.
    TimeOut,
    /// Read its output, from the piece after the given one on.
    Read { after_seq: Option<u64>, wait_ms: u64 },
}

/// What becomes of a remote command once an answer has come.
pub enum RemoteStep {
    /// The server failed to run it.
    Failed(ToolError),
    /// It has ended.
    Closed(RemoteShell),
    /// It goes on.
    Continue(RemoteShell),
}

/// How long the next read waits, in milliseconds: until the time limit is
/// reached, and no longer than the longest wait.
pub open spec fn wait_ms(timeout_ms: Option<u64>, elapsed: u128) -> int {
    match timeout_ms {
        Some(limit) => {
            let remaining = if limit * 1_000_000 > elapsed {
                limit * 1_000_000 - elapsed
            } else {
                0
            };
            (if remaining < READ_WAIT_MS * 1_000_000 {
                remaining
            } else {
                READ_WAIT_MS * 1_000_000
            }) / 1_000_000
        },
        None => READ_WAIT_MS as int,
    }
}

/// The message where a command's access to the network was denied.
pub open spec fn denied_message() -> Seq<char> {
    "Network access was denied by the Codex sandbox network proxy."@
}

/// A command of which nothing was read.
pub open spec fn fresh(cap: nat) -> RemoteView {
    RemoteView {
        cap,
        stdout: Seq::empty(),
        stderr: Seq::empty(),
        aggregated: Seq::empty(),
        after_seq: None,
        exit_code: None,
    }
}

/// What is known of a command once an answer has come.
pub open spec fn after_response(shell: RemoteView, response: ReadResponse) -> RemoteView {
    RemoteView {
        cap: shell.cap,
        stdout: capped(
            shell.stdout + bytes_in(response.chunks@, DeltaStream::Stdout),
            shell.cap,
        ),
        stderr: capped(
            shell.stderr + bytes_in(response.chunks@, DeltaStream::Stderr),
            shell.cap,
        ),
        aggregated: capped(shell.aggregated + all_bytes(response.chunks@), shell.cap),
        after_seq: if response.closed {
            shell.after_seq
        } else if response.next_seq == 0 {
            None
        } else {
            Some((response.next_seq - 1) as u64)
        },
        exit_code: if response.exited {
            response.exit_code
        } else {
            shell.exit_code
        },
    }
}

/// A stream that is capped before more is put behind it ends up as one that is capped
/// once.
pub proof fn law_capping_twice_is_capping_once(a: Seq<u8>, b: Seq<u8>, cap: nat)
    ensures
        capped(capped(a, cap) + b, cap) == capped(a + b, cap),
{
    if a.len() <= cap {
    } else {
        assert(capped(capped(a, cap) + b, cap) =~= a.take(cap as int));
        assert((a + b).take(cap as int) =~= a.take(cap as int));
    }
}

/// Appending one more piece to a capped stream.
proof fn lemma_append_piece(start: Seq<u8>, done: Seq<u8>, piece: Seq<u8>, cap: nat)
    requires
        start.len() <= cap,
    ensures
        ({
            let held = capped(start + done, cap);
            capped(start + (done + piece), cap) == appended(held, piece, cap)
        }),
{
    let held = capped(start + done, cap);
    law_capping_twice_is_capping_once(start + done, piece, cap);
    assert(start + (done + piece) =~= (start + done) + piece);
    if held.len() >= cap {
        assert((held + piece).take(cap as int) =~= held);
    }
}

impl RemoteShell {
    /// No stream holds more than the cap.
    #[verifier::type_invariant]
    spec fn well_formed(&self) -> bool {
        &&& self.stdout@.len() <= self.cap
        &&& self.stderr@.len() <= self.cap
        &&& self.aggregated@.len() <= self.cap
    }

    /// A command that has just started, whose streams keep `cap` bytes each.
    pub fn new(cap: usize) -> (shell: RemoteShell)
        ensures
            shell@ == fresh(cap as nat),
    {
        RemoteShell {
            cap,
            stdout: Vec::new(),
            stderr: Vec::new(),
            aggregated: Vec::new(),
            after_seq: None,
            exit_code: None,
        }
    }

    /// What to do next. The command has run for `elapsed` nanoseconds;
    /// `network_denied` says that its access to the network was denied.
    pub fn next_action(
        &self,
        network_denied: bool,
        timeout_ms: Option<u64>,
        elapsed: u128,
    ) -> (action: RemoteAction)
        ensures
            action == if network_denied {
                RemoteAction::Deny
            } else if wait_ms(timeout_ms, elapsed) == 0 {
                RemoteAction::TimeOut
            } else {
                RemoteAction::Read {
                    after_seq: self@.after_seq,
                    wait_ms: wait_ms(timeout_ms, elapsed) as u64,
                }
            },
    {
        if network_denied {
            return RemoteAction::Deny;
        }
        let wait: u64 = match timeout_ms {
            Some(limit) => {
                let limit_ns: u128 = limit as u128 * NANOS_PER_MILLI;
                let remaining: u128 = if limit_ns > elapsed {
                    limit_ns - elapsed
                } else {
                    0
                };
                let longest: u128 = READ_WAIT_MS as u128 * NANOS_PER_MILLI;
                let bounded: u128 = if remaining < longest {
                    remaining
                } else {
                    longest
                };
                (bounded / NANOS_PER_MILLI) as u64
            },
            None => READ_WAIT_MS,
        };
        if wait == 0 {
            RemoteAction::TimeOut
        } else {
            RemoteAction::Read { after_seq: self.after_seq, wait_ms: wait }
        }
    }

    /// Takes in what the server answered. The output in the answer is kept in
    /// any case; a failure ends the command.
    pub fn on_response(self, response: ReadResponse) -> (step: RemoteStep)
        ensures
            match (response.failure, step) {
                (Some(failure), RemoteStep::Failed(error)) => error == ToolError::Rejected(failure),
                (None, RemoteStep::Closed(next)) => response.closed && next@ == after_response(
                    self@,
                    response,
                ),
                (None, RemoteStep::Continue(next)) => !response.closed && next@ == after_response(
                    self@,
                    response,
                ),
                _ => false,
            },
    {
        proof {
            use_type_invariant(&self);
        }
        let ghost start = self@;
        let ghost answer = response;
        let ReadResponse { chunks, next_seq, exited, exit_code, closed, failure } = response;
        let RemoteShell {
            cap,
            stdout,
            stderr,
            aggregated,
            after_seq,
            exit_code: known_exit_code,
        } = self;
        let mut stdout = stdout;
        let mut stderr = stderr;
        let mut aggregated = aggregated;
        let mut i: usize = 0;
        while i < chunks.len()
            invariant
                i <= chunks@.len(),
                start.stdout.len() <= cap,
                start.stderr.len() <= cap,
                start.aggregated.len() <= cap,
                stdout@ == capped(
                    start.stdout + bytes_in(chunks@.take(i as int), DeltaStream::Stdout),
                    cap as nat,
                ),
                stderr@ == capped(
                    start.stderr + bytes_in(chunks@.take(i as int), DeltaStream::Stderr),
                    cap as nat,
                ),
                aggregated@ == capped(
                    start.aggregated + all_bytes(chunks@.take(i as int)),
                    cap as nat,
                ),
            decreases chunks@.len() - i,
        {
            let ghost done = chunks@.take(i as int);
            let ghost piece = chunks@[i as int].chunk@;
            proof {
                let grown = chunks@.take(i + 1);
                assert(grown.drop_last() =~= done);
                assert(grown.last() == chunks@[i as int]);
                lemma_append_piece(
                    start.stdout,
                    bytes_in(done, DeltaStream::Stdout),
                    piece,
                    cap as nat,
                );
                lemma_append_piece(
                    start.stderr,
                    bytes_in(done, DeltaStream::Stderr),
                    piece,
                    cap as nat,
                );
                lemma_append_piece(start.aggregated, all_bytes(done), piece, cap as nat);
            }
            match chunks[i].stream.shown_in() {
                DeltaStream::Stdout => append_capped(&mut stdout, &chunks[i].chunk, cap),
                DeltaStream::Stderr => append_capped(&mut stderr, &chunks[i].chunk, cap),
            }
            append_capped(&mut aggregated, &chunks[i].chunk, cap);
            i += 1;
        }
        assert(chunks@.take(i as int) =~= chunks@);
        if let Some(message) = failure {
            return RemoteStep::Failed(ToolError::Rejected(message));
        }
        let exit_code = if exited {
            exit_code
        } else {
            known_exit_code
        };
        if closed {
            RemoteStep::Closed(
                RemoteShell { cap, stdout, stderr, aggregated, after_seq, exit_code },
            )
        } else {
            let after_seq = next_seq.checked_sub(1);
            RemoteStep::Continue(
                RemoteShell { cap, stdout, stderr, aggregated, after_seq, exit_code },
            )
        }
    }

    /// The error for a command that ran past its time limit, with the output
    /// that was read of it. `lossy` decodes a single stream, and `smart` both
    /// streams together.
    pub fn timed_out<L: Fn(&Vec<u8>) -> String, S: Fn(&Vec<u8>) -> String>(
        self,
        elapsed: u128,
        lossy: L,
        smart: S,
    ) -> (error: ToolError)
        requires
            forall|bytes: &Vec<u8>| call_requires(lossy, (bytes,)),
            forall|bytes: &Vec<u8>| call_requires(smart, (bytes,)),
        ensures
            match error {
                ToolError::Codex(CodexErr::Sandbox(SandboxErr::Timeout { output })) => {
                    &&& output.exit_code == TIMEOUT_EXIT_CODE
                    &&& output.duration == elapsed
                    &&& output.timed_out
                    &&& shows(
                        output,
                        self@.stdout,
                        self@.stderr,
                        self@.aggregated,
                        lossy,
                        smart,
                    )
                },
                _ => false,
            },
    {
        let output = shell_output(
            &self.stdout,
            &self.stderr,
            &self.aggregated,
            TIMEOUT_EXIT_CODE,
            elapsed,
            true,
            lossy,
            smart,
        );
        ToolError::Codex(CodexErr::Sandbox(SandboxErr::Timeout { output }))
    }

    /// What a command that has ended gave back. `sandbox_denied` says whether a
    /// command with such output was likely stopped by the sandbox.
    pub fn finish<
        L: Fn(&Vec<u8>) -> String,
        S: Fn(&Vec<u8>) -> String,
        D: Fn(SandboxType, &ExecToolCallOutput) -> bool,
    >(
        self,
        elapsed: u128,
        sandbox: SandboxType,
        lossy: L,
        smart: S,
        sandbox_denied: D,
    ) -> (result: Result<ExecToolCallOutput, ToolError>)
        requires
            forall|bytes: &Vec<u8>| call_requires(lossy, (bytes,)),
            forall|bytes: &Vec<u8>| call_requires(smart, (bytes,)),
            forall|kind: SandboxType, output: &ExecToolCallOutput|
                call_requires(sandbox_denied, (kind, output)),
        ensures
            match result {
                Ok(output) => ended_with(self@, elapsed, output, lossy, smart) && call_ensures(
                    sandbox_denied,
                    (sandbox, &output),
                    false,
                ),
                Err(
                    ToolError::Codex(
                        CodexErr::Sandbox(SandboxErr::Denied { output, network_policy_decision }),
                    ),
                ) => {
                    &&& ended_with(self@, elapsed, output, lossy, smart)
                    &&& network_policy_decision is None
                    &&& call_ensures(sandbox_denied, (sandbox, &output), true)
                },
                Err(_) => false,
            },
    {
        let exit_code: i32 = match self.exit_code {
            Some(code) => code,
            None => MISSING_EXIT_CODE,
        };
        let output = shell_output(
            &self.stdout,
            &self.stderr,
            &self.aggregated,
            exit_code,
            elapsed,
            false,
            lossy,
            smart,
        );
        if sandbox_denied(sandbox, &output) {
            Err(
                ToolError::Codex(
                    CodexErr::Sandbox(SandboxErr::Denied { output, network_policy_decision: None }),
                ),
            )
        } else {
            Ok(output)
        }
    }
}

/// The output of a command that has ended, of which the given is known.
pub open spec fn ended_with<L: Fn(&Vec<u8>) -> String, S: Fn(&Vec<u8>) -> String>(
    shell: RemoteView,
    elapsed: u128,
    output: ExecToolCallOutput,
    lossy: L,
    smart: S,
) -> bool {
    &&& output.exit_code == match shell.exit_code {
        Some(code) => code,
        None => MISSING_EXIT_CODE,
    }
    &&& output.duration == elapsed
    &&& !output.timed_out
    &&& shows(output, shell.stdout, shell.stderr, shell.aggregated, lossy, smart)
}

/// The error for a command whose access to the network was denied.
pub fn network_denied_error() -> (error: ToolError)
    ensures
        error.rejects(denied_message()),
{
    ToolError::Rejected("Network access was denied by the Codex sandbox network proxy.".to_owned())
}

/// The events that show the output in an answer, one for each piece.
pub fn response_deltas(stdout_stream: &StdoutStream, chunks: &Vec<OutputChunk>) -> (deltas: Vec<
    OutputDelta,
>)
    ensures
        deltas@.len() == chunks@.len(),
        forall|i: int|
            #![trigger deltas@[i]]
            0 <= i < chunks@.len() ==> shows_chunk(deltas@[i], chunks@[i], *stdout_stream),
{
    let mut deltas: Vec<OutputDelta> = Vec::new();
    let mut i: usize = 0;
    while i < chunks.len()
        invariant
            i <= chunks@.len(),
            deltas@.len() == i,
            forall|k: int|
                #![trigger deltas@[k]]
                0 <= k < i ==> shows_chunk(deltas@[k], chunks@[k], *stdout_stream),
        decreases chunks@.len() - i,
    {
        deltas.push(output_delta(stdout_stream, &chunks[i]));
        i += 1;
    }
    deltas
}

/// What is known of a command once all the answers have come.
pub open spec fn after_responses(shell: RemoteView, responses: Seq<ReadResponse>) -> RemoteView
    decreases responses.len(),
{
    if responses.len() == 0 {
        shell
    } else {
        after_response(after_responses(shell, responses.drop_last()), responses.last())
    }
}

/// All pieces of output in the answers, in order.
pub open spec fn all_chunks(responses: Seq<ReadResponse>) -> Seq<OutputChunk>
    decreases responses.len(),
{
    if responses.len() == 0 {
        Seq::empty()
    } else {
        all_chunks(responses.drop_last()) + responses.last().chunks@
    }
}

proof fn lemma_bytes_concat(a: Seq<OutputChunk>, b: Seq<OutputChunk>)
    ensures
        forall|stream: DeltaStream| #[trigger]
            bytes_in(a + b, stream) == bytes_in(a, stream) + bytes_in(b, stream),
        all_bytes(a + b) == all_bytes(a) + all_bytes(b),
    decreases b.len(),
{
    if b.len() == 0 {
        assert(a + b =~= a);
        assert forall|stream: DeltaStream| #[trigger] bytes_in(a + b, stream) == bytes_in(a, stream)
            + bytes_in(b, stream) by {
            assert(bytes_in(a, stream) + Seq::<u8>::empty() =~= bytes_in(a, stream));
        }
        assert(all_bytes(a) + Seq::<u8>::empty() =~= all_bytes(a));
    } else {
        let init = b.drop_last();
        let piece = b.last().chunk@;
        lemma_bytes_concat(a, init);
        assert((a + b).drop_last() =~= a + init);
        assert forall|stream: DeltaStream| #[trigger] bytes_in(a + b, stream) == bytes_in(a, stream)
            + bytes_in(b, stream) by {
            assert(bytes_in(a + init, stream) == bytes_in(a, stream) + bytes_in(init, stream));
            assert((bytes_in(a, stream) + bytes_in(init, stream)) + piece =~= bytes_in(a, stream)
                + (bytes_in(init, stream) + piece));
        }
        assert((all_bytes(a) + all_bytes(init)) + piece =~= all_bytes(a) + (all_bytes(init)
            + piece));
    }
}

/// However the output is spread over answers, each stream keeps the first bytes
/// of it, up to the cap.
pub proof fn law_streams_keep_the_first_bytes(cap: nat, responses: Seq<ReadResponse>)
    ensures
        ({
            let known = after_responses(fresh(cap), responses);
            let chunks = all_chunks(responses);
            &&& known.cap == cap
            &&& known.stdout == capped(bytes_in(chunks, DeltaStream::Stdout), cap)
            &&& known.stderr == capped(bytes_in(chunks, DeltaStream::Stderr), cap)
            &&& known.aggregated == capped(all_bytes(chunks), cap)
        }),
    decreases responses.len(),
{
    if responses.len() > 0 {
        let init = responses.drop_last();
        let before = all_chunks(init);
        let last = responses.last().chunks@;
        law_streams_keep_the_first_bytes(cap, init);
        lemma_bytes_concat(before, last);
        assert(all_chunks(responses) == before + last);
        law_capping_twice_is_capping_once(
            bytes_in(before, DeltaStream::Stdout),
            bytes_in(last, DeltaStream::Stdout),
            cap,
        );
        law_capping_twice_is_capping_once(
            bytes_in(before, DeltaStream::Stderr),
            bytes_in(last, DeltaStream::Stderr),
            cap,
        );
        law_capping_twice_is_capping_once(all_bytes(before), all_bytes(last), cap);
    }
}

/// No stream ever keeps more than the cap.
pub proof fn law_streams_stay_within_the_cap(cap: nat, responses: Seq<ReadResponse>)
    ensures
        after_responses(fresh(cap), responses).stdout.len() <= cap,
        after_responses(fresh(cap), responses).stderr.len() <= cap,
        after_responses(fresh(cap), responses).aggregated.len() <= cap,
{
    law_streams_keep_the_first_bytes(cap, responses);
}

/// A read waits no longer than the longest wait, and never past the time limit.
pub proof fn law_read_ends_by_the_time_limit(timeout_ms: Option<u64>, elapsed: u128)
    ensures
        0 <= wait_ms(timeout_ms, elapsed) <= READ_WAIT_MS,
        match timeout_ms {
            Some(limit) => wait_ms(timeout_ms, elapsed) > 0 ==> elapsed + wait_ms(
                timeout_ms,
                elapsed,
            ) * 1_000_000 <= limit * 1_000_000,
            None => wait_ms(timeout_ms, elapsed) == READ_WAIT_MS,
        },
{
}

/// A command with a time limit is ended once less than a millisecond of it is
/// left, and not before.
pub proof fn law_command_ends_at_its_time_limit(limit: u64, elapsed: u128)
    ensures
        wait_ms(Some(limit), elapsed) == 0 <==> elapsed + 1_000_000 > limit * 1_000_000,
{
}

/// Appending a piece in two parts keeps the same bytes as appending it at once.
pub proof fn law_split_pieces_are_kept_alike(
    held: Seq<u8>,
    first: Seq<u8>,
    second: Seq<u8>,
    cap: nat,
)
    ensures
        appended(appended(held, first, cap), second, cap) == appended(held, first + second, cap),
{
    if held.len() < cap {
        law_capping_twice_is_capping_once(held + first, second, cap);
        assert(held + (first + second) =~= (held + first) + second);
        let once = capped(held + first, cap);
        if once.len() >= cap {
            assert((once + second).take(cap as int) =~= once);
        }
    }
}

/// The command starts with streams of `cap` bytes, and each answer in turn leads it
/// from one state to the next.
pub open spec fn runs_through(
    cap: usize,
    responses: Seq<ReadResponse>,
    states: Seq<RemoteShell>,
) -> bool {
    &&& states.len() == responses.len() + 1
    &&& call_ensures(RemoteShell::new, (cap,), states[0])
    &&& forall|i: int|
        #![trigger responses[i]]
        0 <= i < responses.len() ==> {
            ||| call_ensures(
                RemoteShell::on_response,
                (states[i], responses[i]),
                RemoteStep::Continue(states[i + 1]),
            )
            ||| call_ensures(
                RemoteShell::on_response,
                (states[i], responses[i]),
                RemoteStep::Closed(states[i + 1]),
            )
        }
}

proof fn lemma_states_follow_the_answers(
    cap: usize,
    responses: Seq<ReadResponse>,
    states: Seq<RemoteShell>,
)
    requires
        runs_through(cap, responses, states),
    ensures
        states.last()@ == after_responses(fresh(cap as nat), responses),
    decreases responses.len(),
{
    if responses.len() > 0 {
        let last = responses.len() - 1;
        let init = responses.drop_last();
        assert forall|i: int| #![trigger init[i]] 0 <= i < init.len() implies init[i]
            == responses[i] by {}
        assert(runs_through(cap, init, states.drop_last()));
        lemma_states_follow_the_answers(cap, init, states.drop_last());
        assert(responses[last] == responses.last());
    }
}

/// The exit code that is known is the one in the last of the answers by which the
/// command had exited.
proof fn lemma_last_exit_code(cap: nat, responses: Seq<ReadResponse>, k: int)
    requires
        -1 <= k < responses.len(),
        k >= 0 ==> responses[k].exited,
        forall|j: int| k < j < responses.len() ==> !(#[trigger] responses[j]).exited,
    ensures
        after_responses(fresh(cap), responses).exit_code == if k >= 0 {
            responses[k].exit_code
        } else {
            None
        },
    decreases responses.len(),
{
    if responses.len() > 0 && k < responses.len() - 1 {
        let init = responses.drop_last();
        assert(!responses[responses.len() - 1].exited);
        assert forall|j: int| k < j < init.len() implies !(#[trigger] init[j]).exited by {
            assert(init[j] == responses[j]);
        }
        lemma_last_exit_code(cap, init, k);
    }
}

/// A command that has ended is reported with the exit code in the last of the
/// answers by which it had exited, whatever that code is. The code is -1 only where
/// that answer holds none, or where no answer says that the command has exited.
pub proof fn law_last_exit_code_is_reported<
    L: Fn(&Vec<u8>) -> String,
    S: Fn(&Vec<u8>) -> String,
    D: Fn(SandboxType, &ExecToolCallOutput) -> bool,
>(
    cap: usize,
    responses: Seq<ReadResponse>,
    states: Seq<RemoteShell>,
    elapsed: u128,
    sandbox: SandboxType,
    lossy: L,
    smart: S,
    sandbox_denied: D,
    result: Result<ExecToolCallOutput, ToolError>,
    output: ExecToolCallOutput,
)
    requires
        runs_through(cap, responses, states),
        call_ensures(
            RemoteShell::finish::<L, S, D>,
            (states.last(), elapsed, sandbox, lossy, smart, sandbox_denied),
            result,
        ),
        result == Ok::<ExecToolCallOutput, ToolError>(output) || result == Err::<
            ExecToolCallOutput,
            ToolError,
        >(
            ToolError::Codex(
                CodexErr::Sandbox(SandboxErr::Denied { output, network_policy_decision: None }),
            ),
        ),
    ensures
        forall|k: int|
            #![trigger responses[k]]
            0 <= k < responses.len() && responses[k].exited && (forall|j: int|
                k < j < responses.len() ==> !(#[trigger] responses[j]).exited)
                ==> output.exit_code == match responses[k].exit_code {
                Some(code) => code,
                None => -1i32,
            },
        (forall|j: int| 0 <= j < responses.len() ==> !(#[trigger] responses[j]).exited)
            ==> output.exit_code == -1,
        output.duration == elapsed,
        !output.timed_out,
{
    lemma_states_follow_the_answers(cap, responses, states);
    assert forall|k: int|
        #![trigger responses[k]]
        0 <= k < responses.len() && responses[k].exited && (forall|j: int|
            k < j < responses.len() ==> !(#[trigger] responses[j]).exited) implies output.exit_code
        == match responses[k].exit_code {
        Some(code) => code,
        None => -1i32,
    } by {
        lemma_last_exit_code(cap as nat, responses, k);
    }
    if forall|j: int| 0 <= j < responses.len() ==> !(#[trigger] responses[j]).exited {
        lemma_last_exit_code(cap as nat, responses, -1);
    }
}

/// A command that has ended gives back its output, unless the sandbox is said to
/// have stopped it. It is never reported as timed out, and nothing else becomes of
/// it.
pub proof fn law_ended_command_gives_its_output<
    L: Fn(&Vec<u8>) -> String,
    S: Fn(&Vec<u8>) -> String,
    D: Fn(SandboxType, &ExecToolCallOutput) -> bool,
>(
    shell: RemoteShell,
    elapsed: u128,
    sandbox: SandboxType,
    lossy: L,
    smart: S,
    sandbox_denied: D,
    result: Result<ExecToolCallOutput, ToolError>,
)
    requires
        call_ensures(
            RemoteShell::finish::<L, S, D>,
            (shell, elapsed, sandbox, lossy, smart, sandbox_denied),
            result,
        ),
    ensures
        match result {
            Ok(output) => call_ensures(sandbox_denied, (sandbox, &output), false),
            Err(
                ToolError::Codex(
                    CodexErr::Sandbox(SandboxErr::Denied { output, network_policy_decision: None }),
                ),
            ) => call_ensures(sandbox_denied, (sandbox, &output), true),
            Err(_) => false,
        },
{
}

/// A piece of output that came over the standard output or a terminal.
pub open spec fn is_outward() -> spec_fn(OutputChunk) -> bool {
    |piece: OutputChunk| piece.stream != ExecOutputStream::Stderr
}

/// A piece of output that came over the error output.
pub open spec fn is_error() -> spec_fn(OutputChunk) -> bool {
    |piece: OutputChunk| piece.stream == ExecOutputStream::Stderr
}

/// The bytes of the pieces, one after the other.
pub open spec fn strung_together(pieces: Seq<OutputChunk>) -> Seq<u8> {
    pieces.map_values(|piece: OutputChunk| piece.chunk@).flatten()
}

proof fn lemma_strung_together_push(pieces: Seq<OutputChunk>, piece: OutputChunk)
    ensures
        strung_together(pieces.push(piece)) == strung_together(pieces) + piece.chunk@,
{
    let bytes = |p: OutputChunk| p.chunk@;
    let before = pieces.map_values(bytes);
    let after = pieces.push(piece).map_values(bytes);
    assert(after =~= before.push(piece.chunk@));
    before.lemma_flatten_and_flatten_alt_are_equivalent();
    after.lemma_flatten_and_flatten_alt_are_equivalent();
    assert(after.drop_last() =~= before);
    assert(after.last() == piece.chunk@);
}

/// Every piece of output is shown in one stream, in the order in which it came:
/// that of the error output in the error stream, and every other in the standard
/// one.
pub proof fn law_streams_hold_their_pieces(chunks: Seq<OutputChunk>)
    ensures
        bytes_in(chunks, DeltaStream::Stdout) == strung_together(chunks.filter(is_outward())),
        bytes_in(chunks, DeltaStream::Stderr) == strung_together(chunks.filter(is_error())),
        all_bytes(chunks) == strung_together(chunks),
    decreases chunks.len(),
{
    reveal(Seq::filter);
    if chunks.len() > 0 {
        let init = chunks.drop_last();
        let last = chunks.last();
        law_streams_hold_their_pieces(init);
        lemma_strung_together_push(init.filter(is_outward()), last);
        lemma_strung_together_push(init.filter(is_error()), last);
        lemma_strung_together_push(init, last);
        assert(init.push(last) =~= chunks);
    } else {
        assert(chunks.filter(is_outward()) =~= Seq::empty());
        assert(chunks.filter(is_error()) =~= Seq::empty());
        assert(strung_together(chunks) =~= Seq::empty());
    }
}

/// Once all the answers have come, each stream keeps the first bytes of what was
/// sent to it: all of them where they are no more than the cap, and as many as the
/// cap says otherwise.
pub proof fn law_streams_keep_what_was_sent(
    cap: usize,
    responses: Seq<ReadResponse>,
    states: Seq<RemoteShell>,
)
    requires
        runs_through(cap, responses, states),
    ensures
        ({
            let sent = all_chunks(responses);
            let known = states.last()@;
            let outward = strung_together(sent.filter(is_outward()));
            let errors = strung_together(sent.filter(is_error()));
            let all = strung_together(sent);
            &&& known.stdout.is_prefix_of(outward)
            &&& known.stderr.is_prefix_of(errors)
            &&& known.aggregated.is_prefix_of(all)
            &&& known.stdout.len() == if outward.len() < cap { outward.len() as int } else { cap as int }
            &&& known.stderr.len() == if errors.len() < cap { errors.len() as int } else { cap as int }
            &&& known.aggregated.len() == if all.len() < cap { all.len() as int } else { cap as int }
        }),
{
    lemma_states_follow_the_answers(cap, responses, states);
    law_streams_keep_the_first_bytes(cap as nat, responses);
    law_streams_hold_their_pieces(all_chunks(responses));
}

proof fn lemma_last_place(cap: nat, responses: Seq<ReadResponse>, k: int)
    requires
        -1 <= k < responses.len(),
        k >= 0 ==> !responses[k].closed,
        forall|j: int| k < j < responses.len() ==> (#[trigger] responses[j]).closed,
    ensures
        after_responses(fresh(cap), responses).after_seq == if k >= 0 && responses[k].next_seq > 0 {
            Some((responses[k].next_seq - 1) as u64)
        } else {
            None
        },
    decreases responses.len(),
{
    if responses.len() > 0 && k < responses.len() - 1 {
        let init = responses.drop_last();
        assert(responses[responses.len() - 1].closed);
        assert forall|j: int| k < j < init.len() implies (#[trigger] init[j]).closed by {
            assert(init[j] == responses[j]);
        }
        lemma_last_place(cap, init, k);
    }
}

/// A read goes on where the last answer left off: the piece that it asks for next
/// is the one that the answer names as the next one. A command of which nothing was
/// read is read from its first piece on.
pub proof fn law_reading_goes_on_where_it_left_off(
    cap: usize,
    responses: Seq<ReadResponse>,
    states: Seq<RemoteShell>,
    timeout_ms: Option<u64>,
    elapsed: u128,
    after_seq: Option<u64>,
    wait: u64,
)
    requires
        runs_through(cap, responses, states),
        forall|j: int| 0 <= j < responses.len() ==> !(#[trigger] responses[j]).closed,
        call_ensures(
            RemoteShell::next_action,
            (&states.last(), false, timeout_ms, elapsed),
            RemoteAction::Read { after_seq, wait_ms: wait },
        ),
    ensures
        responses.len() == 0 ==> after_seq is None,
        responses.len() > 0 ==> match after_seq {
            Some(seq) => seq + 1 == responses.last().next_seq,
            None => responses.last().next_seq == 0,
        },
{
    lemma_states_follow_the_answers(cap, responses, states);
    lemma_last_place(cap as nat, responses, responses.len() - 1);
}

/// A running command is ended first of all where its access to the network was
/// denied. It is ended for its time where less than a whole millisecond of its
/// limit is left. Else it is read: the read waits for as many whole milliseconds as
/// are left, and for a tenth of a second at most.
pub proof fn law_command_is_read_while_it_has_time(
    shell: RemoteShell,
    network_denied: bool,
    timeout_ms: Option<u64>,
    elapsed: u128,
    action: RemoteAction,
)
    requires
        call_ensures(
            RemoteShell::next_action,
            (&shell, network_denied, timeout_ms, elapsed),
            action,
        ),
    ensures
        action is Deny <==> network_denied,
        action is TimeOut <==> !network_denied && timeout_ms is Some && elapsed + 1_000_000
            > timeout_ms->0 * 1_000_000,
        match action {
            RemoteAction::Read { after_seq, wait_ms: wait } => {
                &&& after_seq == shell@.after_seq
                &&& 1 <= wait <= 100
                &&& match timeout_ms {
                    None => wait == 100,
                    Some(limit) => {
                        &&& elapsed + wait * 1_000_000 <= limit * 1_000_000
                        &&& wait < 100 ==> elapsed + (wait + 1) * 1_000_000 > limit * 1_000_000
                    },
                }
            },
            _ => true,
        },
{
}

/// An answer that tells of a failure ends the command with it, whatever else the
/// answer holds. An answer without one ends the command exactly where it says that
/// no more output will come.
pub proof fn law_failure_ends_the_command(
    shell: RemoteShell,
    response: ReadResponse,
    step: RemoteStep,
)
    requires
        call_ensures(RemoteShell::on_response, (shell, response), step),
    ensures
        step is Failed <==> response.failure is Some,
        response.failure is Some ==> step == RemoteStep::Failed(
            ToolError::Rejected(response.failure->0),
        ),
        step is Closed <==> response.failure is None && response.closed,
        step is Continue <==> response.failure is None && !response.closed,
{
}

/// A command that ran past its time limit is reported as timed out, with the exit
/// code 124, even where the server has named another one, and with what was read of
/// it.
pub proof fn law_timed_out_command_is_reported_so<
    L: Fn(&Vec<u8>) -> String,
    S: Fn(&Vec<u8>) -> String,
>(shell: RemoteShell, elapsed: u128, lossy: L, smart: S, error: ToolError)
    requires
        call_ensures(RemoteShell::timed_out::<L, S>, (shell, elapsed, lossy, smart), error),
    ensures
        match error {
            ToolError::Codex(CodexErr::Sandbox(SandboxErr::Timeout { output })) => {
                &&& output.exit_code == 124
                &&& output.duration == elapsed
                &&& output.timed_out
                &&& exists|raw: &Vec<u8>|
                    raw@ == shell@.stdout && #[trigger] call_ensures(
                        lossy,
                        (raw,),
                        output.stdout.text,
                    )
                &&& exists|raw: &Vec<u8>|
                    raw@ == shell@.stderr && #[trigger] call_ensures(
                        lossy,
                        (raw,),
                        output.stderr.text,
                    )
                &&& exists|raw: &Vec<u8>|
                    raw@ == shell@.aggregated && #[trigger] call_ensures(
                        smart,
                        (raw,),
                        output.aggregated_output.text,
                    )
            },
            _ => false,
        },
{
}

/// The events that show an answer are one for each piece of output, in order, each
/// with the bytes of its piece. A piece of the error output is shown as such, and
/// every other one as standard output.
pub proof fn law_every_piece_is_shown(
    stdout_stream: StdoutStream,
    chunks: Vec<OutputChunk>,
    deltas: Vec<OutputDelta>,
)
    requires
        call_ensures(response_deltas, (&stdout_stream, &chunks), deltas),
    ensures
        deltas@.len() == chunks@.len(),
        forall|i: int|
            #![trigger deltas@[i]]
            0 <= i < chunks@.len() ==> {
                &&& deltas@[i].chunk@ == chunks@[i].chunk@
                &&& deltas@[i].id == stdout_stream.sub_id
                &&& deltas@[i].call_id == stdout_stream.call_id
                &&& deltas@[i].stream == DeltaStream::Stderr <==> chunks@[i].stream
                    == ExecOutputStream::Stderr
            },
{
}

/// What a command that has ended gives back shows what was kept of each of its
/// streams, and the exit code that is known of it, or -1 where none is.
pub proof fn law_ended_command_shows_what_was_kept<
    L: Fn(&Vec<u8>) -> String,
    S: Fn(&Vec<u8>) -> String,
    D: Fn(SandboxType, &ExecToolCallOutput) -> bool,
>(
    shell: RemoteShell,
    elapsed: u128,
    sandbox: SandboxType,
    lossy: L,
    smart: S,
    sandbox_denied: D,
    result: Result<ExecToolCallOutput, ToolError>,
    output: ExecToolCallOutput,
)
    requires
        call_ensures(
            RemoteShell::finish::<L, S, D>,
            (shell, elapsed, sandbox, lossy, smart, sandbox_denied),
            result,
        ),
        result == Ok::<ExecToolCallOutput, ToolError>(output) || result == Err::<
            ExecToolCallOutput,
            ToolError,
        >(
            ToolError::Codex(
                CodexErr::Sandbox(SandboxErr::Denied { output, network_policy_decision: None }),
            ),
        ),
    ensures
        shell@.exit_code is Some ==> output.exit_code == shell@.exit_code->0,
        shell@.exit_code is None ==> output.exit_code == -1,
        exists|raw: &Vec<u8>|
            raw@ == shell@.stdout && #[trigger] call_ensures(lossy, (raw,), output.stdout.text),
        exists|raw: &Vec<u8>|
            raw@ == shell@.stderr && #[trigger] call_ensures(lossy, (raw,), output.stderr.text),
        exists|raw: &Vec<u8>|
            raw@ == shell@.aggregated && #[trigger] call_ensures(
                smart,
                (raw,),
                output.aggregated_output.text,
            ),
{
}

/// Bytes that are appended to a stream leave what it holds in place, follow it in
/// their order, and are cut only where the cap is reached. A stream at its cap, or
/// past it, stays as it is.
pub proof fn law_appended_bytes_fill_the_stream_up(
    before: Vec<u8>,
    src: Vec<u8>,
    cap: usize,
    after: Vec<u8>,
)
    requires
        exists|dst: &mut Vec<u8>|
            *dst == before && *final(dst) == after && #[trigger] call_ensures(
                append_capped,
                (dst, &src, cap),
                (),
            ),
    ensures
        before@.is_prefix_of(after@),
        after@.is_prefix_of(before@ + src@),
        before@.len() >= cap ==> after@.len() == before@.len(),
        before@.len() < cap ==> after@.len() == if before@.len() + src@.len() < cap {
            before@.len() + src@.len()
        } else {
            cap as nat
        },
{
    assert(before@ =~= after@.subrange(0, before@.len() as int));
    assert(after@ =~= (before@ + src@).subrange(0, after@.len() as int));
}

/// A command is said to have been denied the network in these words.
pub proof fn law_denied_network_is_told(error: ToolError)
    requires
        call_ensures(network_denied_error, (), error),
    ensures
        match error {
            ToolError::Rejected(message) => message@
                == "Network access was denied by the Codex sandbox network proxy."@,
            _ => false,
        },
{
}

/// One piece of output is shown as it came, in the error stream exactly where it
/// came over the error output.
pub proof fn law_piece_is_shown_as_it_came(
    to: StdoutStream,
    piece: OutputChunk,
    delta: OutputDelta,
    stream: DeltaStream,
)
    requires
        call_ensures(output_delta, (&to, &piece), delta),
        call_ensures(ExecOutputStream::shown_in, (piece.stream,), stream),
    ensures
        delta.id@ == to.sub_id@,
        delta.call_id@ == to.call_id@,
        delta.chunk@ == piece.chunk@,
        delta.stream == stream,
        stream is Stderr <==> piece.stream is Stderr,
{
}

} // verus!
