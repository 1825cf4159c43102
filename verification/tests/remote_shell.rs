use codex_core::exec_output::{
    shell_output, CodexErr, ExecToolCallOutput, SandboxErr, ToolError,
};
use codex_core::exec_server::SandboxType;
use codex_core::remote_shell::{
    append_capped, network_denied_error, output_delta, response_deltas, DeltaStream,
    ExecOutputStream, OutputChunk, ReadResponse, RemoteAction, RemoteShell, RemoteStep,
};
use codex_core::runtime::StdoutStream;

const MILLI: u128 = 1_000_000;

fn lossy(bytes: &Vec<u8>) -> String {
    String::from_utf8_lossy(bytes).to_string()
}

fn smart(bytes: &Vec<u8>) -> String {
    format!("<{}>", String::from_utf8_lossy(bytes))
}

fn chunk(stream: ExecOutputStream, text: &str) -> OutputChunk {
    OutputChunk { stream, chunk: text.as_bytes().to_vec() }
}

fn response(chunks: Vec<OutputChunk>, next_seq: u64) -> ReadResponse {
    ReadResponse { chunks, next_seq, exited: false, exit_code: None, closed: false, failure: None }
}

fn going_on(step: RemoteStep) -> RemoteShell {
    match step {
        RemoteStep::Continue(shell) => shell,
        _ => panic!("the command goes on"),
    }
}

fn closed(step: RemoteStep) -> RemoteShell {
    match step {
        RemoteStep::Closed(shell) => shell,
        _ => panic!("the command has ended"),
    }
}

fn finished(shell: RemoteShell) -> ExecToolCallOutput {
    shell
        .finish(5, SandboxType { code: 0 }, lossy, smart, |_kind, _output: &ExecToolCallOutput| false)
        .expect("the sandbox did not stop it")
}

#[test]
fn a_read_waits_until_the_time_limit_and_no_longer_than_a_tenth_of_a_second() {
    let shell = RemoteShell::new(10);
    let action = |limit, elapsed| shell.next_action(false, limit, elapsed);
    let read = |wait_ms| RemoteAction::Read { after_seq: None, wait_ms };

    assert_eq!(action(None, 0), read(100));
    assert_eq!(action(Some(1000), 0), read(100));
    assert_eq!(action(Some(1000), 950 * MILLI), read(50));
    assert_eq!(action(Some(1000), 998 * MILLI + 1), read(1));
    assert_eq!(action(Some(1000), 999 * MILLI), read(1));
    assert_eq!(action(Some(1000), 999 * MILLI + 1), RemoteAction::TimeOut);
    assert_eq!(action(Some(1000), 2000 * MILLI), RemoteAction::TimeOut);
    assert_eq!(action(Some(0), 0), RemoteAction::TimeOut);
    assert_eq!(action(Some(u64::MAX), 0), read(100));
    assert_eq!(shell.next_action(true, Some(0), 0), RemoteAction::Deny);
}

#[test]
fn output_goes_to_its_stream_and_to_both_together() {
    let shell = RemoteShell::new(100);
    let shell = going_on(shell.on_response(response(
        vec![
            chunk(ExecOutputStream::Stdout, "a"),
            chunk(ExecOutputStream::Stderr, "b"),
            chunk(ExecOutputStream::Pty, "c"),
        ],
        3,
    )));
    assert_eq!(
        shell.next_action(false, None, 0),
        RemoteAction::Read { after_seq: Some(2), wait_ms: 100 }
    );
    let mut last = response(vec![chunk(ExecOutputStream::Stdout, "d")], 4);
    last.exited = true;
    last.exit_code = Some(7);
    last.closed = true;

    let output = finished(closed(shell.on_response(last)));

    assert_eq!(output.exit_code, 7);
    assert_eq!(output.stdout.text, "acd");
    assert_eq!(output.stderr.text, "b");
    assert_eq!(output.aggregated_output.text, "<abcd>");
    assert_eq!(output.stdout.truncated_after_lines, None);
    assert_eq!(output.duration, 5);
    assert!(!output.timed_out);
}

#[test]
fn however_output_is_spread_each_stream_keeps_its_first_bytes() {
    let spread = |sizes: &[usize]| {
        let text = "abcdefghij";
        let mut shell = RemoteShell::new(4);
        let mut at = 0;
        for size in sizes {
            let piece = &text[at..at + size];
            at += size;
            shell = going_on(shell.on_response(response(
                vec![
                    chunk(ExecOutputStream::Stdout, piece),
                    chunk(ExecOutputStream::Stderr, piece),
                ],
                1,
            )));
        }
        let mut end = response(Vec::new(), 1);
        end.closed = true;
        finished(closed(shell.on_response(end)))
    };

    for sizes in [vec![10], vec![3, 7], vec![1, 1, 1, 1, 6], vec![4, 6]] {
        let output = spread(&sizes);
        assert_eq!(output.stdout.text, "abcd");
        assert_eq!(output.stderr.text, "abcd");
        assert_eq!(output.aggregated_output.text.len(), 6);
    }
    assert_eq!(spread(&[3]).stdout.text, "abc");
}

#[test]
fn a_failure_of_the_server_ends_the_command() {
    let mut failed = response(vec![chunk(ExecOutputStream::Stdout, "a")], 1);
    failed.failure = Some("lost".to_string());
    failed.closed = true;

    match RemoteShell::new(10).on_response(failed) {
        RemoteStep::Failed(error) => {
            assert_eq!(error, ToolError::Rejected("lost".to_string()));
        }
        _ => panic!("the server failed"),
    }
}

#[test]
fn reading_starts_over_where_nothing_was_read() {
    let shell = going_on(RemoteShell::new(10).on_response(response(Vec::new(), 0)));

    assert_eq!(
        shell.next_action(false, None, 0),
        RemoteAction::Read { after_seq: None, wait_ms: 100 }
    );
}

#[test]
fn a_command_past_its_time_limit_hands_back_what_it_wrote() {
    let shell = going_on(
        RemoteShell::new(10).on_response(response(vec![chunk(ExecOutputStream::Stdout, "a")], 1)),
    );

    match shell.timed_out(9, lossy, smart) {
        ToolError::Codex(CodexErr::Sandbox(SandboxErr::Timeout { output })) => {
            assert_eq!(output.exit_code, 124);
            assert!(output.timed_out);
            assert_eq!(output.duration, 9);
            assert_eq!(output.stdout.text, "a");
            assert_eq!(output.aggregated_output.text, "<a>");
        }
        _ => panic!("the command ran past its time limit"),
    }
}

#[test]
fn a_command_that_the_sandbox_stopped_is_denied() {
    let mut end = response(Vec::new(), 1);
    end.closed = true;
    let shell = closed(RemoteShell::new(10).on_response(end));

    let denied = shell.finish(
        5,
        SandboxType { code: 3 },
        lossy,
        smart,
        |kind: SandboxType, output: &ExecToolCallOutput| kind.code == 3 && output.exit_code == -1,
    );

    match denied {
        Err(ToolError::Codex(CodexErr::Sandbox(SandboxErr::Denied {
            output,
            network_policy_decision,
        }))) => {
            assert_eq!(output.exit_code, -1);
            assert_eq!(network_policy_decision, None);
        }
        _ => panic!("the sandbox stopped the command"),
    }
}

#[test]
fn an_exit_code_is_kept_until_the_command_is_closed() {
    let mut exited = response(Vec::new(), 1);
    exited.exited = true;
    exited.exit_code = Some(3);
    let shell = going_on(RemoteShell::new(10).on_response(exited));
    let mut end = response(vec![chunk(ExecOutputStream::Stdout, "late")], 2);
    end.closed = true;

    let output = finished(closed(shell.on_response(end)));

    assert_eq!(output.exit_code, 3);
    assert_eq!(output.stdout.text, "late");
}

#[test]
fn denied_access_to_the_network_is_a_rejection() {
    assert_eq!(
        network_denied_error(),
        ToolError::Rejected(
            "Network access was denied by the Codex sandbox network proxy.".to_string()
        )
    );
}

#[test]
fn appending_stops_at_the_cap() {
    let mut held = vec![1u8, 2];

    append_capped(&mut held, &vec![3, 4, 5], 4);
    assert_eq!(held, vec![1, 2, 3, 4]);
    append_capped(&mut held, &vec![6], 4);
    assert_eq!(held, vec![1, 2, 3, 4]);
    append_capped(&mut held, &vec![6], 2);
    assert_eq!(held, vec![1, 2, 3, 4]);
    append_capped(&mut held, &vec![6], 9);
    assert_eq!(held, vec![1, 2, 3, 4, 6]);
}

#[test]
fn a_piece_in_two_parts_is_kept_like_one() {
    let whole = vec![3u8, 4, 5, 6];
    for cap in 0..8 {
        for at in 0..whole.len() {
            let mut once = vec![1u8, 2];
            append_capped(&mut once, &whole, cap);
            let mut twice = vec![1u8, 2];
            append_capped(&mut twice, &whole[..at].to_vec(), cap);
            append_capped(&mut twice, &whole[at..].to_vec(), cap);
            assert_eq!(once, twice);
        }
    }
}

#[test]
fn each_piece_of_output_is_shown_as_it_comes() {
    let to = StdoutStream { sub_id: "sub".to_string(), call_id: "call".to_string() };
    let chunks =
        vec![chunk(ExecOutputStream::Pty, "a"), chunk(ExecOutputStream::Stderr, "b")];

    let deltas = response_deltas(&to, &chunks);

    assert_eq!(deltas.len(), 2);
    assert_eq!((deltas[0].id.as_str(), deltas[0].call_id.as_str()), ("sub", "call"));
    assert_eq!(deltas[0].stream, DeltaStream::Stdout);
    assert_eq!(deltas[0].chunk, b"a".to_vec());
    assert_eq!(deltas[1].stream, DeltaStream::Stderr);
    let plain = output_delta(&to, &chunk(ExecOutputStream::Stdout, "x"));
    assert_eq!(plain.stream, DeltaStream::Stdout);
}

#[test]
fn streams_are_decoded_each_in_its_way() {
    let output =
        shell_output(&vec![b'a'], &vec![b'b'], &vec![b'c'], 2, 3, true, lossy, smart);

    assert_eq!(output.stdout.text, "a");
    assert_eq!(output.stderr.text, "b");
    assert_eq!(output.aggregated_output.text, "<c>");
    assert_eq!((output.exit_code, output.duration, output.timed_out), (2, 3, true));
}
