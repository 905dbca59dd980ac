use browserserve::chrome::client::{CdpClient, CdpError};
use browserserve::chrome::find::{find_chrome, search_paths, FindError};
use browserserve::chrome::flags::{build_flags, FlagOptions};
use browserserve::chrome::kill::{
    group_to_signal, Teardown, TeardownAction, TeardownEvent, PROTOCOL_CLOSE_BUDGET_MS,
    REAP_BUDGET_MS,
};
use browserserve::chrome::launch::{
    parse_version, Launch, LaunchAction, LaunchError, LaunchEvent, LaunchSpec, StderrTail,
    STDERR_MAX_LINES,
};
use browserserve::chrome::pipe::{
    frame_message, frame_raw, map_closed, parse_frame, take_frame, CdpReader, PipeError,
    ReadEvent,
};
use browserserve::json::{parse, write_text, Json};
use browserserve::platform::Platform;
use bytes::BytesMut;

fn json(text: &str) -> Json {
    parse(text.as_bytes()).expect("valid JSON")
}

// client

#[test]
fn call_correlates_reply_and_skips_interleaved_events() {
    let mut client = CdpClient::new();
    let (id, frame) = client.send("Storage.getCookies", Json::object(Vec::new()), None);
    let sent = parse_frame(&frame[..frame.len() - 1]).unwrap();
    assert_eq!(sent.get("method").unwrap().as_str(), Some("Storage.getCookies"));
    let event = json(r#"{"method":"Network.requestWillBeSent","params":{}}"#);
    assert!(CdpClient::reply(id, "Storage.getCookies", &event).is_none());
    let reply = json(&format!(r#"{{"id":{id},"result":{{"cookies":[]}}}}"#));
    let result = CdpClient::reply(id, "Storage.getCookies", &reply).unwrap().unwrap();
    assert_eq!(write_text(&result), r#"{"cookies":[]}"#);
}

#[test]
fn call_maps_cdp_error_response() {
    let mut client = CdpClient::new();
    let (id, _) = client.send("Storage.setCookies", Json::object(Vec::new()), None);
    let reply = json(&format!(r#"{{"id":{id},"error":{{"code":-32000,"message":"boom"}}}}"#));
    let err = CdpClient::reply(id, "Storage.setCookies", &reply).unwrap().unwrap_err();
    assert!(matches!(
        err,
        CdpError::Protocol { code: -32000, ref message, .. } if message == "boom"
    ));
    assert!(err.message().contains("Storage.setCookies"));
}

#[test]
fn ids_increment_across_calls() {
    let mut client = CdpClient::new();
    let (first, _) = client.send("A.b", Json::object(Vec::new()), None);
    let (second, _) = client.send("C.d", Json::object(Vec::new()), None);
    assert_eq!(second, first + 1);
}

#[test]
fn commands_are_routed_to_their_session() {
    let mut client = CdpClient::new();
    let (id, envelope) = client.envelope("Page.enable", Json::object(Vec::new()), Some("SID1"));
    assert_eq!(envelope.get("id").unwrap().as_u64(), Some(id));
    assert_eq!(envelope.get("sessionId").unwrap().as_str(), Some("SID1"));
    let (_, plain) = client.envelope("Page.enable", Json::object(Vec::new()), None);
    assert!(plain.get("sessionId").is_none());
}

#[test]
fn replies_to_other_commands_are_skipped() {
    let reply = json(r#"{"id":7,"result":1}"#);
    assert!(CdpClient::reply(8, "A.b", &reply).is_none());
    let bare = json(r#"{"id":8}"#);
    assert!(matches!(CdpClient::reply(8, "A.b", &bare), Some(Ok(Json::Null))));
}

// find

#[test]
fn explicit_missing_path_is_rejected() {
    let err = find_chrome(Platform::Linux, Some("/nonexistent/chrome"), &Vec::new()).unwrap_err();
    assert!(matches!(err, FindError::BadExplicit { .. }));
}

#[test]
fn explicit_executable_is_accepted() {
    let path = "/tmp/fake-chrome".to_string();
    assert_eq!(search_paths(Platform::Linux, Some(&path)), vec![path.clone()]);
    let executable = vec![path.clone()];
    assert_eq!(find_chrome(Platform::Linux, Some(&path), &executable).unwrap(), path);
}

#[test]
fn explicit_non_executable_file_is_rejected() {
    let executable = vec!["/usr/bin/chromium".to_string()];
    assert!(matches!(
        find_chrome(Platform::Linux, Some("/tmp/not-exec"), &executable).unwrap_err(),
        FindError::BadExplicit { .. }
    ));
}

#[test]
fn known_locations_are_tried_in_order() {
    let known = search_paths(Platform::Linux, None);
    assert!(known.len() > 1);
    let last = vec![known[known.len() - 1].clone()];
    assert_eq!(find_chrome(Platform::Linux, None, &last).unwrap(), last[0]);
    assert_eq!(find_chrome(Platform::Linux, None, &known).unwrap(), known[0]);
    assert_eq!(
        find_chrome(Platform::Linux, None, &Vec::new()).unwrap_err(),
        FindError::NotFound { searched: known.len() }
    );
}

#[test]
fn each_platform_has_its_locations() {
    let linux = search_paths(Platform::Linux, None);
    assert_eq!((linux.len(), linux[0].as_str()), (7, "/usr/bin/chromium"));
    let mac = search_paths(Platform::MacOs, None);
    assert_eq!(mac.len(), 4);
    assert_eq!(mac[1], "/Applications/Chromium.app/Contents/MacOS/Chromium");
    assert_eq!(find_chrome(Platform::MacOs, None, &mac).unwrap(), mac[0]);
    assert!(find_chrome(Platform::MacOs, None, &linux).is_err());
}

// flags

fn flags_for(no_sandbox: bool, extra: &Vec<String>) -> Vec<String> {
    build_flags(&FlagOptions {
        user_data_dir: "/tmp/profile-x",
        no_sandbox,
        extra,
    })
}

#[test]
fn sandbox_stays_on_by_default() {
    let flags = flags_for(false, &vec![]);
    assert!(!flags.iter().any(|f| f == "--no-sandbox"));
    assert!(flags.contains(&String::from("--headless")));
    assert!(flags.contains(&String::from("--remote-debugging-pipe")));
    assert!(flags.contains(&String::from("--user-data-dir=/tmp/profile-x")));
    assert_eq!(flags.last().map(String::as_str), Some("about:blank"));
}

#[test]
fn no_sandbox_is_opt_in() {
    assert!(flags_for(true, &vec![]).iter().any(|f| f == "--no-sandbox"));
}

#[test]
fn extra_flags_come_after_defaults_before_url() {
    let extra = vec![String::from("--lang=de")];
    let flags = flags_for(false, &extra);
    let lang = flags.iter().position(|f| f == "--lang=de").unwrap();
    let url = flags.iter().position(|f| f == "about:blank").unwrap();
    assert!(lang < url);
}

#[test]
fn crash_restore_prompt_is_suppressed() {
    let flags = flags_for(false, &vec![]);
    assert!(flags.iter().any(|f| f == "--disable-session-crashed-bubble"));
    assert!(flags.iter().any(|f| f == "--hide-crash-restore-bubble"));
}

#[test]
fn cookie_encryption_is_portable() {
    let flags = flags_for(false, &vec![]);
    assert!(flags.iter().any(|f| f == "--password-store=basic"));
    assert!(flags.iter().any(|f| f == "--use-mock-keychain"));
}

#[test]
fn no_legacy_or_contested_flags() {
    let flags = flags_for(false, &vec![]);
    for banned in [
        "--disable-gpu",
        "--single-process",
        "--no-zygote",
        "--enable-automation",
    ] {
        assert!(!flags.iter().any(|f| f == banned), "{banned} must not ship");
    }
}

// launch

#[test]
fn parse_version_extracts_known_fields() {
    let value = json(
        r#"{"id":1,"result":{"product":"Chrome/149.0.0.0","protocolVersion":"1.3","userAgent":"Mozilla/5.0","jsVersion":"14.9.1"}}"#,
    );
    let version = parse_version(&value);
    assert_eq!(version.product, "Chrome/149.0.0.0");
    assert_eq!(version.protocol_version, "1.3");
    assert_eq!(version.user_agent, "Mozilla/5.0");
    assert_eq!(version.js_version, "14.9.1");
}

#[test]
fn parse_version_tolerates_missing_fields() {
    let version = parse_version(&json(r#"{ "id": 1, "result": {} }"#));
    assert_eq!(version.product, "");
}

#[test]
fn sandbox_failure_gets_remediation() {
    let err = LaunchError::ChromeExited {
        status: String::from("signal: 6 (SIGABRT)"),
        stderr_tail: String::from("[23:23] FATAL:zygote_host_impl_linux.cc No usable sandbox!"),
    };
    let hint = err.remediation().unwrap();
    assert!(hint.contains("seccomp"));
    assert!(hint.contains("chrome.noSandbox"));
    assert!(hint.contains("#sandbox"));
}

#[test]
fn unrelated_failures_get_no_remediation() {
    let exited = LaunchError::ChromeExited {
        status: String::from("exit status: 1"),
        stderr_tail: String::from("some other failure"),
    };
    assert!(exited.remediation().is_none());
    assert!(LaunchError::PidUnavailable.remediation().is_none());
}

#[test]
fn stderr_tail_is_bounded() {
    let mut tail = StderrTail::default();
    for i in 0..(STDERR_MAX_LINES + 50) {
        tail.push(format!("line {i}"));
    }
    let lines = tail.snapshot();
    assert_eq!(lines.len(), STDERR_MAX_LINES);
    assert_eq!(lines.first().map(String::as_str), Some("line 50"));
}

fn launch() -> (Launch, LaunchAction) {
    let extra = Vec::new();
    Launch::begin(&LaunchSpec {
        executable: "/usr/bin/chromium",
        user_data_dir: "/tmp/p",
        no_sandbox: false,
        extra_flags: &extra,
        launch_timeout_ms: 300,
        max_frame_bytes: 1024,
    })
}

fn probing(launch: &mut Launch, tail: &StderrTail) {
    assert!(matches!(launch.step(LaunchEvent::Pipes(Ok(())), tail), LaunchAction::MapFds));
    let spawn = launch.step(LaunchEvent::Mapped(true), tail);
    assert!(matches!(spawn, LaunchAction::Spawn(ref args) if args.last().unwrap() == "about:blank"));
    assert!(matches!(
        launch.step(LaunchEvent::Spawned(Ok(Some(42))), tail),
        LaunchAction::WirePipe
    ));
    let probe = launch.step(LaunchEvent::Wired(Ok(())), tail);
    let frame = match probe {
        LaunchAction::Probe(frame) => frame,
        other => panic!("expected a probe, got {other:?}"),
    };
    let sent = parse_frame(&frame[..frame.len() - 1]).unwrap();
    assert_eq!(sent.get("method").unwrap().as_str(), Some("Browser.getVersion"));
    assert_eq!(sent.get("id").unwrap().as_u64(), Some(1));
}

#[test]
fn launch_is_ready_when_the_probe_is_answered() {
    let tail = StderrTail::default();
    let (mut launch, first) = launch();
    assert!(matches!(first, LaunchAction::CreatePipes));
    probing(&mut launch, &tail);
    let event = json(r#"{"method":"Target.targetCreated"}"#);
    assert!(matches!(launch.step(LaunchEvent::Message(event), &tail), LaunchAction::Receive));
    let answer = json(r#"{"id":1,"result":{"product":"TestBrowser"}}"#);
    let ready = launch.step(LaunchEvent::Message(answer), &tail);
    assert!(matches!(ready, LaunchAction::Ready(42, ref v) if v.product == "TestBrowser"));
}

#[test]
fn ready_timeout_kills_the_spawned_group() {
    let mut tail = StderrTail::default();
    let (mut launch, _) = launch();
    probing(&mut launch, &tail);
    tail.push("starting".to_string());
    assert!(matches!(launch.step(LaunchEvent::TimedOut, &tail), LaunchAction::Abort(42)));
    let failed = launch.step(LaunchEvent::Aborted, &tail);
    assert!(matches!(
        failed,
        LaunchAction::Fail(LaunchError::ReadyTimeout { timeout_ms: 300, ref stderr_tail })
            if stderr_tail == "starting"
    ));
}

#[test]
fn every_early_launch_failure_is_reported() {
    let tail = StderrTail::default();
    let (mut no_pipes, _) = launch();
    let failed = no_pipes.step(LaunchEvent::Pipes(Err("EMFILE".to_string())), &tail);
    assert!(matches!(failed, LaunchAction::Fail(LaunchError::Pipes(ref e)) if e == "EMFILE"));

    let (mut no_map, _) = launch();
    no_map.step(LaunchEvent::Pipes(Ok(())), &tail);
    let failed = no_map.step(LaunchEvent::Mapped(false), &tail);
    assert!(matches!(failed, LaunchAction::Fail(LaunchError::FdMapping)));

    let (mut no_spawn, _) = launch();
    no_spawn.step(LaunchEvent::Pipes(Ok(())), &tail);
    no_spawn.step(LaunchEvent::Mapped(true), &tail);
    let failed = no_spawn.step(LaunchEvent::Spawned(Err("ENOENT".to_string())), &tail);
    match failed {
        LaunchAction::Fail(e) => assert!(e.message().contains("failed to spawn"), "{e:?}"),
        other => panic!("expected a failure, got {other:?}"),
    }

    let (mut no_pid, _) = launch();
    no_pid.step(LaunchEvent::Pipes(Ok(())), &tail);
    no_pid.step(LaunchEvent::Mapped(true), &tail);
    let aborting = no_pid.step(LaunchEvent::Spawned(Ok(None)), &tail);
    assert!(matches!(aborting, LaunchAction::AbortChild), "the child is killed and reaped first");
    assert!(matches!(no_pid.step(LaunchEvent::Exited("0".to_string()), &tail), LaunchAction::Ignore));
    let failed = no_pid.step(LaunchEvent::Aborted, &tail);
    assert!(matches!(failed, LaunchAction::Fail(LaunchError::PidUnavailable)));

    let (mut huge_pid, _) = launch();
    huge_pid.step(LaunchEvent::Pipes(Ok(())), &tail);
    huge_pid.step(LaunchEvent::Mapped(true), &tail);
    let aborting = huge_pid.step(LaunchEvent::Spawned(Ok(Some(u32::MAX))), &tail);
    assert!(matches!(aborting, LaunchAction::AbortChild));
}

#[test]
fn an_early_exit_and_a_broken_pipe_are_told_apart() {
    let tail = StderrTail::default();
    let (mut exited, _) = launch();
    probing(&mut exited, &tail);
    let mut action = exited.step(LaunchEvent::Exited("exit status: 1".to_string()), &tail);
    if matches!(action, LaunchAction::Abort(42)) {
        action = exited.step(LaunchEvent::Aborted, &tail);
    }
    assert!(matches!(
        action,
        LaunchAction::Fail(LaunchError::ChromeExited { ref status, .. }) if status == "exit status: 1"
    ));

    let (mut broken, _) = launch();
    probing(&mut broken, &tail);
    let mut action = broken.step(LaunchEvent::PipeFailed(PipeError::Closed), &tail);
    if matches!(action, LaunchAction::Abort(42)) {
        action = broken.step(LaunchEvent::Aborted, &tail);
    }
    assert!(matches!(
        action,
        LaunchAction::Fail(LaunchError::StartupPipe { source: PipeError::Closed, .. })
    ));

    let (mut unwired, _) = launch();
    unwired.step(LaunchEvent::Pipes(Ok(())), &tail);
    unwired.step(LaunchEvent::Mapped(true), &tail);
    unwired.step(LaunchEvent::Spawned(Ok(Some(42))), &tail);
    let mut action = unwired.step(LaunchEvent::Wired(Err("EBADF".to_string())), &tail);
    if matches!(action, LaunchAction::Abort(42)) {
        action = unwired.step(LaunchEvent::Aborted, &tail);
    }
    assert!(matches!(action, LaunchAction::Fail(LaunchError::Wire(ref e)) if e == "EBADF"));
}

// kill

#[test]
fn teardown_escalates_from_close_to_sigkill() {
    let (mut teardown, first) = Teardown::begin(true, 700);
    match first {
        TeardownAction::CloseAndWait { frame, budget_ms } => {
            assert_eq!(budget_ms, PROTOCOL_CLOSE_BUDGET_MS);
            let sent = parse_frame(&frame[..frame.len() - 1]).unwrap();
            assert_eq!(sent.get("method").unwrap().as_str(), Some("Browser.close"));
        },
        other => panic!("expected a close, got {other:?}"),
    }
    assert!(matches!(
        teardown.step(TeardownEvent::TimedOut),
        TeardownAction::TermAndWait { budget_ms: 700 }
    ));
    assert!(matches!(
        teardown.step(TeardownEvent::TimedOut),
        TeardownAction::KillAndWait { budget_ms: REAP_BUDGET_MS }
    ));
    assert!(matches!(
        teardown.step(TeardownEvent::Exited(Some("signal: 9".to_string()))),
        TeardownAction::Finish
    ));
    assert!(teardown.report.escalated_sigkill && teardown.report.reaped);
    assert!(!teardown.report.graceful);
    assert_eq!(teardown.report.exit_status.as_deref(), Some("signal: 9"));
}

#[test]
fn teardown_of_a_willing_browser_is_graceful() {
    let (mut teardown, _) = Teardown::begin(true, 700);
    let action = teardown.step(TeardownEvent::Exited(Some("exit status: 0".to_string())));
    assert!(matches!(action, TeardownAction::TermAndFinish | TeardownAction::Finish));
    assert!(teardown.report.graceful && teardown.report.reaped);
    assert!(!teardown.report.escalated_sigkill);
}

#[test]
fn only_real_groups_are_signalled() {
    assert_eq!(group_to_signal(0), None);
    assert_eq!(group_to_signal(-5), None);
    assert_eq!(group_to_signal(4242), Some(4242));
}

// pipe

fn buf_from(bytes: &[u8]) -> BytesMut {
    let mut buf = BytesMut::new();
    buf.extend_from_slice(bytes);
    buf
}

#[test]
fn incomplete_frame_returns_none_and_keeps_bytes() {
    let mut buf = buf_from(b"{\"id\":1");
    assert!(take_frame(&mut buf, 1024).unwrap().is_none());
    assert_eq!(&buf[..], b"{\"id\":1");
}

#[test]
fn complete_frame_is_extracted_and_consumed() {
    let mut buf = buf_from(b"{\"id\":1}\0rest");
    let frame = take_frame(&mut buf, 1024).unwrap().unwrap();
    assert_eq!(&frame[..], b"{\"id\":1}");
    assert_eq!(&buf[..], b"rest");
}

#[test]
fn multiple_frames_come_out_in_order() {
    let mut buf = buf_from(b"a\0b\0c\0");
    let mut out = Vec::new();
    while let Some(frame) = take_frame(&mut buf, 1024).unwrap() {
        out.push(frame);
    }
    assert_eq!(out, [&b"a"[..], b"b", b"c"]);
    assert!(buf.is_empty());
}

#[test]
fn frame_split_across_pushes_survives() {
    let mut buf = buf_from(b"{\"a\":");
    assert!(take_frame(&mut buf, 1024).unwrap().is_none());
    buf.extend_from_slice(b"1}\0");
    let frame = take_frame(&mut buf, 1024).unwrap().unwrap();
    assert_eq!(&frame[..], b"{\"a\":1}");
}

#[test]
fn unterminated_overflow_is_rejected() {
    let mut buf = buf_from(&[b'x'; 32]);
    assert!(matches!(
        take_frame(&mut buf, 16),
        Err(PipeError::FrameTooLarge { max_bytes: 16 })
    ));
}

#[test]
fn terminated_oversize_frame_is_rejected() {
    let mut buf = buf_from(&[b'x'; 32]);
    buf.extend_from_slice(b"\0");
    assert!(matches!(
        take_frame(&mut buf, 16),
        Err(PipeError::FrameTooLarge { max_bytes: 16 })
    ));
}

#[test]
fn send_and_recv_round_trip_over_real_pipes() {
    let message = json(r#"{"id":1,"method":"Browser.getVersion"}"#);
    let frame = frame_message(&message);
    let (last, body) = frame.split_last().unwrap();
    assert_eq!(*last, 0);
    assert!(!body.contains(&0));
    assert_eq!(write_text(&parse(body).unwrap()), write_text(&message));

    let mut reader = CdpReader::new(1024 * 1024);
    reader.buf.extend_from_slice(b"{\"id\":1,\"result\":{\"product\":");
    assert!(reader.recv(ReadEvent::Asked).unwrap().is_none());
    reader.buf.extend_from_slice(b"\"TestBrowser\"}}\0");
    let reply = reader.recv(ReadEvent::Read(8)).unwrap().unwrap();
    assert_eq!(
        reply.get("result").unwrap().get("product").unwrap().as_str(),
        Some("TestBrowser")
    );
}

#[test]
fn recv_reports_closed_on_eof() {
    let mut reader = CdpReader::new(1024);
    assert!(reader.recv_raw(ReadEvent::Asked).unwrap().is_none());
    assert!(matches!(reader.recv_raw(ReadEvent::Read(0)), Err(PipeError::Closed)));
    let failed = ReadEvent::Failed(PipeError::Io("EIO".to_string()));
    assert!(matches!(reader.recv_raw(failed), Err(PipeError::Io(ref e)) if e == "EIO"));
}

/// Receives until the bytes, which arrive in chunks of this size, are used up.
fn receive_all(bytes: &[u8], chunk: usize, max_frame: usize) -> (Vec<Vec<u8>>, String) {
    let mut reader = CdpReader::new(max_frame);
    let mut chunks = bytes.chunks(chunk);
    let mut frames = Vec::new();
    let mut event = ReadEvent::Asked;
    loop {
        event = match reader.recv_raw(event) {
            Ok(Some(frame)) => {
                frames.push(frame.to_vec());
                ReadEvent::Asked
            },
            Ok(None) => match chunks.next() {
                Some(more) => {
                    reader.buf.extend_from_slice(more);
                    ReadEvent::Read(more.len())
                },
                None => ReadEvent::Read(0),
            },
            Err(e) => return (frames, e.message()),
        };
    }
}

#[test]
fn chunks_do_not_matter_to_the_receiver() {
    let closed = PipeError::Closed.message();
    let too_large = PipeError::FrameTooLarge { max_bytes: 4 }.message();
    for chunk in 1..14 {
        let (frames, end) = receive_all(b"a\0bcd\0\0efgh\0par", chunk, 4);
        assert_eq!(frames, [&b"a"[..], b"bcd", b"", b"efgh"], "chunks of {chunk}");
        assert_eq!(end, closed);
        let (frames, end) = receive_all(b"a\0bcdefgh\0i\0", chunk, 4);
        assert_eq!(frames, [&b"a"[..]], "chunks of {chunk}");
        assert_eq!(end, too_large);
    }
}

#[test]
fn sent_messages_read_back() {
    for text in [
        r#"{"method":"Page.navigate","params":{"url":"data:,\u0000\u0007"},"x":[-1,null,true]}"#,
        r##"{"#":1,"$serde_json::private::RawValue":"2"}"##,
    ] {
        let frame = frame_message(&json(text));
        let read = parse_frame(&frame[..frame.len() - 1]).unwrap();
        assert_eq!(write_text(&read), write_text(&json(text)));
        assert_eq!(write_text(&read), text);
    }
}

#[test]
fn raw_frames_get_one_terminator() {
    assert_eq!(frame_raw(b"abc"), b"abc\0");
}

#[test]
fn bad_json_and_io_errors_are_described() {
    let err = parse_frame(b"{oops").unwrap_err();
    assert!(matches!(err, PipeError::BadJson(_)));
    assert!(matches!(map_closed(true, "x".to_string()), PipeError::Closed));
    assert!(matches!(map_closed(false, "x".to_string()), PipeError::Io(ref e) if e == "x"));
    let err = PipeError::FrameTooLarge { max_bytes: 16 };
    assert!(err.message().contains("16"));
}
