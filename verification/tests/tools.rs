use unicos::common::{AgentId, Command, Envelope, Event, Message, Sender, Timestamp, Topic, UnicError};
use unicos::conversation::ConversationId;
use unicos::json::{parse_json, Json};
use unicos::tools::{
    env_text, BashArgs, BashExecutor, BashOutcome, BuiltinTool, ConvLoadArgs, ConvPlan,
    ConversationFile, ConversationLoader, FileSystemOperator, NetArgs, NetOutcome, NetRequestTool,
    SystemTool, ToolRegistry,
};

fn log_entry(id: u128, payload: Event) -> Envelope<Event> {
    Envelope {
        id,
        ts: Timestamp { secs: 0, nanos: 0 },
        topic: Topic::new("general"),
        sender: Sender::UserSudo,
        conversation_id: ConversationId::from_seed("task-42"),
        payload,
    }
}

fn message(id: u128, text: &str) -> Envelope<Event> {
    log_entry(id, Event::Message(Message { text: text.to_string() }))
}

fn plan(id: &str, max_messages: Option<usize>) -> ConvPlan {
    let args = ConvLoadArgs { conversation_id: id.to_string(), max_messages };
    let dir = Some("/tmp/conversations".to_string());
    ConversationLoader::plan(&args, &dir, &Some("/tmp/god.log".to_string()))
}

#[test]
fn conv_load_reads_conversation_from_disk() {
    let conv_id = ConversationId::from_seed("task-42");
    let id = uuid::Uuid::now_v7().as_u128();
    let env = message(id, "hello");

    let plan = plan(&conv_id.to_string(), Some(10));
    assert_eq!(plan.conv_path, format!("/tmp/conversations/{}.json", conv_id.as_str()));
    assert_eq!(plan.god_log, "/tmp/god.log");
    let file = ConversationFile { conversation_id: conv_id, message_ids: vec![id] };
    let wanted = plan.wanted(file).unwrap();
    let out = plan.report(&wanted, &vec![env]);
    let messages = out.get("messages").unwrap().as_array().unwrap();
    assert_eq!(messages.len(), 1);
    assert_eq!(out.get("missing_message_ids").unwrap().as_array().unwrap().len(), 0);
    assert_eq!(messages[0].get("text").unwrap().as_text().unwrap(), "hello");
}

#[test]
fn the_usual_tools_are_registered() {
    let reg = ToolRegistry::with_defaults();
    assert!(matches!(reg.get("bash"), Some(BuiltinTool::Bash(_))));
    assert!(matches!(reg.get("fs"), Some(BuiltinTool::Files(_))));
    assert!(matches!(reg.get("net"), Some(BuiltinTool::Net(_))));
    assert!(matches!(reg.get("conv_load"), Some(BuiltinTool::Conversations(_))));
    assert!(reg.get("teapot").is_none());
    match reg.call("teapot") {
        Err(e) => assert_eq!(e.to_string(), "tool error: unknown tool: teapot"),
        Ok(_) => panic!("there is no such tool"),
    }
    for tool in ["bash", "fs", "net", "conv_load"] {
        assert_eq!(reg.call(tool).unwrap().name(), tool);
    }
}

#[test]
fn tools_are_found_under_their_own_names() {
    let mut reg: ToolRegistry<BuiltinTool> = ToolRegistry::new();
    assert!(reg.get("net").is_none());
    reg.register(BuiltinTool::Net(NetRequestTool));
    reg.register(BuiltinTool::Net(NetRequestTool));
    assert!(matches!(reg.get("net"), Some(BuiltinTool::Net(_))));
    assert!(reg.get("fs").is_none());
}

#[test]
fn commands_are_reported() {
    let v = BashExecutor::report(BashOutcome::Finished {
        success: true,
        exit_code: Some(0),
        stdout: b"a\xff\n".to_vec(),
        stderr: vec![],
    });
    let expected =
        "{\"status\":\"ok\",\"exit_code\":0,\"stdout\":\"a\u{fffd}\\n\",\"stderr\":\"\"}";
    for field in ["status", "exit_code", "stdout", "stderr"] {
        assert_eq!(v.as_ref().unwrap().get(field), parse_json(expected).unwrap().get(field));
    }
    let v = BashExecutor::finished(false, None, "".to_string(), "e".to_string());
    assert_eq!(v.get("status").unwrap().as_text(), Some("error"));
    assert_eq!(v.get("exit_code"), Some(&Json::Null));
    let e = BashExecutor::report(BashOutcome::TimedOut).unwrap_err();
    assert_eq!(e.to_string(), "tool error: bash: timeout");
    let e = BashExecutor::report(BashOutcome::Failed("no bash".to_string())).unwrap_err();
    assert_eq!(e.to_string(), "io error: no bash");
}

#[test]
fn commands_have_half_a_minute() {
    let args = |timeout_ms: Option<u64>| BashArgs { cmd: "ls".to_string(), timeout_ms, cwd: None };
    assert_eq!(args(None).time_limit_ms(), 30_000);
    assert_eq!(args(Some(5)).time_limit_ms(), 5);
}

#[test]
fn files_are_cut_when_they_are_read() {
    let bytes = "héllo".as_bytes().to_vec();
    let read = |max: Option<usize>| FileSystemOperator::report_read("/f", &bytes, max);
    assert_eq!(read(None).get("data").unwrap().as_text(), Some("héllo"));
    assert_eq!(read(Some(6)).get("truncated"), Some(&Json::Bool(false)));
    assert_eq!(read(Some(2)).get("data").unwrap().as_text(), Some("h\u{fffd}"));
    assert_eq!(read(Some(2)).get("truncated"), Some(&Json::Bool(true)));
    assert_eq!(read(Some(0)).get("data").unwrap().as_text(), Some(""));
    assert_eq!(read(None).get("path").unwrap().as_text(), Some("/f"));
}

#[test]
fn written_files_are_reported() {
    assert!(FileSystemOperator::appends(Some(true)));
    assert!(!FileSystemOperator::appends(Some(false)) && !FileSystemOperator::appends(None));
    let v = FileSystemOperator::report_written("/f", true);
    assert_eq!(v.get("status").unwrap().as_text(), Some("appended"));
    let v = FileSystemOperator::report_written("/f", false);
    assert_eq!(v.get("status").unwrap().as_text(), Some("written"));
}

#[test]
fn methods_are_tokens() {
    let check = |method: &str| {
        NetRequestTool::check(&NetArgs {
            method: method.to_string(),
            url: "u".to_string(),
            headers: None,
            body: None,
        })
    };
    for good in ["GET", "get", "X-1!#$%&'*+.^_`|~", "A_METHOD_THAT_IS_QUITE_LONG"] {
        assert!(check(good).is_ok(), "{good}");
    }
    for bad in ["", "GE T", "GÉT", "GET\n", "(GET)", "G\"", "a/b", "{}", "a,b", "a=b"] {
        match check(bad) {
            Err(e) => {
                assert_eq!(e.to_string(), format!("tool error: net: invalid method {bad}"));
            }
            Ok(()) => panic!("{bad} is no method"),
        }
    }
}

#[test]
fn every_ascii_character_is_judged_as_the_web_does() {
    for b in 0..128u8 {
        let method = (b as char).to_string();
        let args = NetArgs { method: method.clone(), url: "u".to_string(), headers: None, body: None };
        let token = b.is_ascii_alphanumeric() || "!#$%&'*+-.^_`|~".contains(b as char);
        assert_eq!(NetRequestTool::check(&args).is_ok(), token, "{b}");
    }
}

#[test]
fn answers_of_the_web_are_reported() {
    let pair = |k: &str, v: &str| (k.to_string(), v.to_string());
    let v = NetRequestTool::report(NetOutcome::Reply {
        status: 204,
        headers: vec![pair("a", "1"), pair("b", "2"), pair("a", "3")],
        body: "x".to_string(),
    })
    .unwrap();
    assert_eq!(v.get("status"), Some(&Json::Integer(204)));
    let headers = v.get("headers").unwrap();
    assert_eq!(headers.get("a").unwrap().as_text(), Some("3"));
    assert_eq!(headers.get("b").unwrap().as_text(), Some("2"));
    assert!(matches!(headers, Json::Object(fields) if fields.len() == 2));
    assert_eq!(v.get("body").unwrap().as_text(), Some("x"));
    let e = NetRequestTool::report(NetOutcome::RequestFailed("x".to_string())).unwrap_err();
    assert_eq!(e.to_string(), "tool error: net: request failed: x");
    let e = NetRequestTool::report(NetOutcome::BodyFailed("x".to_string())).unwrap_err();
    assert_eq!(e.to_string(), "tool error: net: read body failed: x");
}

#[test]
fn variables_are_trimmed_and_may_be_missing() {
    assert_eq!(env_text(&None, "/d"), "/d");
    assert_eq!(env_text(&Some("  ".to_string()), "/d"), "/d");
    assert_eq!(env_text(&Some(" /x\n".to_string()), "/d"), "/x");
}

#[test]
fn a_conversation_is_meant_by_its_name_or_its_seed() {
    assert_eq!(plan("DEADBEEF", None).id.as_str(), "deadbeef");
    assert_eq!(plan("foobar", None).id.as_str(), "bf9cf968");
    assert_eq!(plan("bf9cf968", None).id.as_str(), "bf9cf968");
    assert_eq!(plan("x", None).max_messages, 200);
    assert_eq!(plan("x", Some(0)).max_messages, 1);
    assert_eq!(plan("x", Some(7)).max_messages, 7);
    let args = ConvLoadArgs { conversation_id: "deadbeef".to_string(), max_messages: None };
    let usual = ConversationLoader::plan(&args, &None, &Some(" ".to_string()));
    assert_eq!(usual.conv_path, "/var/lib/unicos/conversations/deadbeef.json");
    assert_eq!(usual.god_log, "/var/lib/unicos/god.log");
}

#[test]
fn the_last_messages_of_a_conversation_are_wanted() {
    let id = || ConversationId::from_seed("task-42");
    let file = |ids: Vec<u128>| ConversationFile { conversation_id: id(), message_ids: ids };
    let p = plan("task-42", Some(2));
    assert_eq!(p.wanted(file(vec![1, 2, 3])).unwrap(), [2, 3]);
    assert_eq!(p.wanted(file(vec![1])).unwrap(), [1]);
    let other = ConversationFile {
        conversation_id: ConversationId::default(),
        message_ids: vec![],
    };
    match p.wanted(other) {
        Err(UnicError::Tool(said)) => assert_eq!(
            said,
            format!("conv_load: conversation_id mismatch in {}", p.conv_path),
        ),
        other => panic!("unexpected {other:?}"),
    }
}

#[test]
fn wanted_messages_are_found_or_missing() {
    let p = plan("task-42", None);
    let log = vec![
        message(1, "old"),
        message(2, "b"),
        log_entry(2, Event::Command(Command::Kill { id: AgentId::new("x") })),
        message(1, "new"),
        log_entry(4, Event::Command(Command::Kill { id: AgentId::new("x") })),
    ];
    let wanted = vec![2, 1, 4, 0x0123_4567_89ab_cdef_0123_4567_89ab_cdef];
    let out = p.report(&wanted, &log);
    let found: Vec<&str> = out
        .get("messages")
        .unwrap()
        .as_array()
        .unwrap()
        .iter()
        .map(|m| m.get("text").unwrap().as_text().unwrap())
        .collect();
    assert_eq!(found, ["b", "new"]);
    let missing: Vec<&str> = out
        .get("missing_message_ids")
        .unwrap()
        .as_array()
        .unwrap()
        .iter()
        .map(|m| m.as_text().unwrap())
        .collect();
    assert_eq!(
        missing,
        ["00000000-0000-0000-0000-000000000004", "01234567-89ab-cdef-0123-456789abcdef"],
    );
    assert_eq!(found.len() + missing.len(), wanted.len());
    assert_eq!(out.get("conversation_id").unwrap().as_text(), Some(p.id.as_str()));
    assert_eq!(out.get("conv_path").unwrap().as_text(), Some(p.conv_path.as_str()));
    assert_eq!(out.get("god_log").unwrap().as_text(), Some("/tmp/god.log"));
}

#[test]
fn a_found_message_is_told_with_its_cover() {
    let p = plan("task-42", None);
    let mut env = message(0xff, "hi");
    env.ts = Timestamp { secs: 1_700_000_000, nanos: 120_000_000 };
    env.sender = Sender::Agent(AgentId::new("Alice"));
    let out = p.report(&vec![0xff], &vec![env]);
    let m = &out.get("messages").unwrap().as_array().unwrap()[0];
    assert_eq!(m.get("id").unwrap().as_text(), Some("00000000-0000-0000-0000-0000000000ff"));
    assert_eq!(m.get("ts").unwrap().as_text(), Some("2023-11-14T22:13:20.120Z"));
    assert_eq!(m.get("topic").unwrap().as_text(), Some("#general"));
    assert_eq!(m.get("sender").unwrap().get("Agent").unwrap().as_text(), Some("Alice"));
    assert_eq!(
        m.get("conversation_id").unwrap().as_text(),
        Some(ConversationId::from_seed("task-42").as_str()),
    );
}

#[test]
fn moments_can_be_out_of_reach() {
    let datable = |secs: i64, nanos: u32| Timestamp { secs, nanos }.is_datable();
    for (secs, nanos) in [
        (0, 0),
        (-1, 999_999_999),
        (59, 1_999_999_999),
        (60, 1_000_000_000),
        (-1, 1_500_000_000),
        (0, 2_000_000_000),
        (8_210_266_876_799, 0),
        (8_210_266_876_800, 0),
        (-8_334_601_228_800, 0),
        (-8_334_601_228_801, 0),
        (i64::MAX, 0),
    ] {
        let expected = chrono::DateTime::from_timestamp(secs, nanos).is_some();
        assert_eq!(datable(secs, nanos), expected, "{secs} {nanos}");
    }
}

#[test]
fn moments_are_written_as_dates_are() {
    let p = plan("task-42", None);
    for (secs, nanos) in [
        (0, 0),
        (-1, 1),
        (1_700_000_000, 1_000),
        (59, 1_500_000_000),
        (8_210_266_876_799, 999_999_999),
        (-8_334_601_228_800, 0),
    ] {
        let mut env = message(1, "x");
        env.ts = Timestamp { secs, nanos };
        let out = p.report(&vec![1], &vec![env]);
        let m = &out.get("messages").unwrap().as_array().unwrap()[0];
        let date = chrono::DateTime::from_timestamp(secs, nanos).unwrap();
        let expected = serde_json::to_value(date).unwrap();
        assert_eq!(m.get("ts").unwrap().as_text(), expected.as_str());
    }
}

#[test]
fn what_is_written_is_read() {
    let data = "héllo, 世界";
    let read = |text: &str, max: Option<usize>| {
        FileSystemOperator::report_read("/f", &text.as_bytes().to_vec(), max)
    };
    assert_eq!(read(data, None).get("data").unwrap().as_text(), Some(data));
    assert_eq!(read(data, None).get("truncated"), Some(&Json::Bool(false)));
    assert_eq!(read(data, Some(3)).get("data").unwrap().as_text(), Some("hé"));
    assert_eq!(read(data, Some(3)).get("truncated"), Some(&Json::Bool(true)));
    assert_eq!(read(data, Some(data.len())).get("truncated"), Some(&Json::Bool(false)));
    let added = format!("{data} again");
    assert_eq!(read(&added, None).get("data").unwrap().as_text(), Some("héllo, 世界 again"));
}
