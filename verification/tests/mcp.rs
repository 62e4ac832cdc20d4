use llmspec::mcp::Tool;

#[test]
fn every_tool_is_found_by_its_name() {
    for tool in Tool::ALL {
        assert_eq!(Tool::from_name(tool.name()), Some(tool));
        assert!(!tool.title().is_empty());
        assert!(!tool.description().is_empty());
    }
    assert_eq!(Tool::from_name("nonesuch"), None);
    assert_eq!(Tool::from_name("FIT"), None);
}

#[test]
fn schemas_are_objects_that_refuse_unknown_arguments() {
    for tool in Tool::ALL {
        let schema = to_text(&tool.schema());
        assert!(schema.starts_with("{\"additionalProperties\":false,"), "{schema}");
        assert!(schema.ends_with(",\"type\":\"object\"}"), "{schema}");
        let value: Value = serde_json::from_str(&schema).unwrap();
        assert_eq!(value["type"], "object");
        assert_eq!(value["additionalProperties"], false);
        if let Some(props) = tool.properties() {
            assert_eq!(value["properties"], serde_json::from_str::<Value>(props).unwrap());
        }
    }
    assert_eq!(to_text(&Tool::System.schema()), r#"{"additionalProperties":false,"type":"object"}"#);
    assert!(to_text(&Tool::Model.schema()).contains("\"required\":[\"name\"]"));
    assert_eq!(Tool::Model.required_argument(), Some("name"));
    assert_eq!(Tool::Fit.required_argument(), None);
    assert!(Tool::Verify.description().starts_with("Read a .gguf or .safetensors file"));
}

use llmspec::fit::FitLevel;
use llmspec::json::{read_json, to_text};
use llmspec::mcp::{
    argument, context_argument, fit_argument, message_of, negotiate, quant_argument, reply_json, required,
    use_case_argument, Era, Message, Outcome, Protocol, Reply, INVALID_PARAMS, INVALID_REQUEST, METHOD_NOT_FOUND,
    MODERN_VERSION, PARSE_ERROR, SERVER_NAME, UNSUPPORTED_PROTOCOL_VERSION,
};
use serde_json::Value;
use llmspec::models::{Quant, UseCase};

fn request(method: &str) -> Message {
    Message {
        method: Some(method.to_string()),
        has_id: true,
        requested_version: None,
        offered_version: None,
        tool: None,
    }
}

fn modern(method: &str, version: &str) -> Message {
    Message { requested_version: Some(version.to_string()), ..request(method) }
}

fn call(tool: &str) -> Message {
    Message { tool: Some(tool.to_string()), ..request("tools/call") }
}

fn ask(s: &mut Protocol, line: &str) -> Value {
    match s.respond(line) {
        Outcome::Send(raw) => {
            assert!(!raw.contains('\n'), "one message per line");
            serde_json::from_str(&raw).unwrap()
        }
        Outcome::Silent => panic!("expected a response to {line}, got silence"),
        Outcome::Call(..) => panic!("expected a response to {line}, got a tool call"),
    }
}

#[test]
fn a_legacy_client_gets_its_own_version_echoed_back() {
    let mut s = Protocol::new();
    let response = ask(
        &mut s,
        r#"{"jsonrpc":"2.0","id":1,"method":"initialize","params":{"protocolVersion":"2025-06-18","capabilities":{}}}"#,
    );
    assert_eq!(response["result"]["protocolVersion"], "2025-06-18");
    assert_eq!(response["result"]["serverInfo"]["name"], SERVER_NAME);
    assert!(response["result"]["capabilities"]["tools"].is_object());
    assert_eq!(response["id"], 1);
    assert_eq!(s.era, Era::Legacy);
    let m = Message { offered_version: Some("2025-06-18".to_string()), ..request("initialize") };
    assert!(matches!(Protocol::new().answer(&m), Reply::Initialize("2025-06-18")));
}

#[test]
fn a_legacy_client_naming_an_unknown_version_is_offered_our_newest() {
    let mut s = Protocol::new();
    let response = ask(&mut s, r#"{"jsonrpc":"2.0","id":1,"method":"initialize","params":{"protocolVersion":"1.0.0"}}"#);
    assert_eq!(response["result"]["protocolVersion"], "2025-11-25");
    assert_eq!(negotiate(None), "2025-11-25");
    assert_eq!(negotiate(Some("2024-11-05")), "2024-11-05");
    assert_eq!(negotiate(Some("2025-03-26")), "2025-03-26");
}

#[test]
fn discover_reports_the_modern_version_and_the_tools_capability() {
    let mut s = Protocol::new();
    let response = ask(
        &mut s,
        r#"{"jsonrpc":"2.0","id":"d1","method":"server/discover","params":{"_meta":{"io.modelcontextprotocol/protocolVersion":"2026-07-28"}}}"#,
    );
    let result = &response["result"];
    assert_eq!(result["supportedVersions"][0], MODERN_VERSION);
    assert_eq!(result["resultType"], "complete");
    assert!(result["capabilities"]["tools"].is_object());
    assert_eq!(result["_meta"]["io.modelcontextprotocol/serverInfo"]["name"], SERVER_NAME);
    assert_eq!(response["id"], "d1");
    assert_eq!(s.era, Era::Modern);
    assert!(s.stamps_result_type());
    assert_eq!(MODERN_VERSION, "2026-07-28");
}

#[test]
fn an_unsupported_modern_version_is_refused_with_the_list_we_do_support() {
    let mut s = Protocol::new();
    let line = r#"{"jsonrpc":"2.0","id":1,"method":"tools/list","params":{"_meta":{"io.modelcontextprotocol/protocolVersion":"1900-01-01"}}}"#;
    let raw = match s.respond(line) {
        Outcome::Send(raw) => raw,
        _ => panic!("expected a refusal"),
    };
    assert_eq!(
        raw,
        r#"{"error":{"code":-32022,"data":{"requested":"1900-01-01","supported":["2026-07-28"]},"message":"Unsupported protocol version"},"id":1,"jsonrpc":"2.0"}"#
    );
    let response: Value = serde_json::from_str(&raw).unwrap();
    assert_eq!(response["error"]["code"], UNSUPPORTED_PROTOCOL_VERSION);
    assert_eq!(response["error"]["data"]["supported"][0], MODERN_VERSION);
    assert_eq!(response["error"]["data"]["requested"], "1900-01-01");
    assert_eq!(UNSUPPORTED_PROTOCOL_VERSION, -32022);
    assert_eq!(s.era, Era::Modern, "the refusal is shaped for the era that sent it");
}

#[test]
fn result_type_is_stamped_for_modern_clients_and_withheld_from_legacy_ones() {
    let mut modern = Protocol::new();
    ask(
        &mut modern,
        r#"{"jsonrpc":"2.0","id":1,"method":"server/discover","params":{"_meta":{"io.modelcontextprotocol/protocolVersion":"2026-07-28"}}}"#,
    );
    let listed = ask(&mut modern, r#"{"jsonrpc":"2.0","id":2,"method":"tools/list"}"#);
    assert_eq!(listed["result"]["resultType"], "complete");

    let mut legacy = Protocol::new();
    ask(&mut legacy, r#"{"jsonrpc":"2.0","id":1,"method":"initialize","params":{"protocolVersion":"2025-11-25"}}"#);
    let listed = ask(&mut legacy, r#"{"jsonrpc":"2.0","id":2,"method":"tools/list"}"#);
    assert!(listed["result"].get("resultType").is_none(), "legacy clients must not be sent resultType");

    // A legacy connection that sends discover without metadata stays legacy.
    ask(&mut legacy, r#"{"jsonrpc":"2.0","id":3,"method":"server/discover"}"#);
    assert_eq!(legacy.era, Era::Legacy);
}

#[test]
fn notifications_are_never_answered() {
    let mut s = Protocol::new();
    assert!(matches!(s.respond(r#"{"jsonrpc":"2.0","method":"notifications/initialized"}"#), Outcome::Silent));
    assert!(matches!(s.respond(r#"{"jsonrpc":"2.0","method":"notifications/cancelled","params":{}}"#), Outcome::Silent));
    let note = Message { has_id: false, ..modern("notifications/cancelled", "1900-01-01") };
    assert!(matches!(s.answer(&note), Reply::Silent));
    assert_eq!(s.era, Era::Unknown);
}

#[test]
fn every_advertised_tool_dispatches() {
    let mut s = Protocol::new();
    let listed = ask(&mut s, r#"{"jsonrpc":"2.0","id":1,"method":"tools/list"}"#);
    let tools = listed["result"]["tools"].as_array().unwrap();
    assert_eq!(tools.len(), Tool::ALL.len());
    assert_eq!(Tool::ALL.len(), 7);
    for tool in tools {
        let name = tool["name"].as_str().unwrap();
        assert!(Tool::from_name(name).is_some(), "{name} is listed but cannot be resolved");
        assert!(!tool["description"].as_str().unwrap().is_empty(), "{name} has no description");
        assert_eq!(tool["inputSchema"]["type"], "object", "{name}'s schema is not an object schema");
        let line = format!(r#"{{"jsonrpc":"2.0","id":1,"method":"tools/call","params":{{"name":"{name}"}}}}"#);
        match s.respond(&line) {
            Outcome::Call(_, t, _) => assert_eq!(t.name(), name),
            _ => panic!("{name} is listed but cannot be called"),
        }
    }
}

#[test]
fn malformed_json_is_a_parse_error_rather_than_a_crash() {
    let mut s = Protocol::new();
    let response = ask(&mut s, "{not json");
    assert_eq!(response["error"]["code"], PARSE_ERROR);
    assert!(response["id"].is_null());
    assert!(response["error"]["message"].as_str().unwrap().starts_with("invalid JSON: "));
    assert_eq!(s.era, Era::Unknown);
}

#[test]
fn a_tool_call_hands_out_its_id_and_arguments_and_its_reply_wraps_the_outcome() {
    let mut s = Protocol::new();
    ask(
        &mut s,
        r#"{"jsonrpc":"2.0","id":1,"method":"server/discover","params":{"_meta":{"io.modelcontextprotocol/protocolVersion":"2026-07-28"}}}"#,
    );
    let line = r#"{"jsonrpc":"2.0","id":"c7","method":"tools/call","params":{"name":"search","arguments":{"limit":3,"query":"qwen"}}}"#;
    let (id, args) = match s.respond(line) {
        Outcome::Call(id, t, args) => {
            assert_eq!(t, Tool::Search);
            (id, args)
        }
        _ => panic!("expected a tool call"),
    };
    assert_eq!(to_text(&id), r#""c7""#);
    assert_eq!(to_text(&args), r#"{"limit":3,"query":"qwen"}"#);

    let answer = read_json(r#"{"count":1,"models":["a"]}"#).unwrap();
    let raw = s.tool_reply(&id, &Ok(answer));
    assert_eq!(
        raw,
        r#"{"id":"c7","jsonrpc":"2.0","result":{"content":[{"text":"{\n  \"count\": 1,\n  \"models\": [\n    \"a\"\n  ]\n}","type":"text"}],"isError":false,"resultType":"complete","structuredContent":{"count":1,"models":["a"]}}}"#
    );
    let raw = s.tool_reply(&id, &Err("no model matches 'zz'".to_string()));
    assert_eq!(
        raw,
        r#"{"id":"c7","jsonrpc":"2.0","result":{"content":[{"text":"no model matches 'zz'","type":"text"}],"isError":true,"resultType":"complete"}}"#
    );
}

#[test]
fn a_call_without_arguments_passes_an_empty_object() {
    let mut s = Protocol::new();
    match s.respond(r#"{"jsonrpc":"2.0","id":5,"method":"tools/call","params":{"name":"system"}}"#) {
        Outcome::Call(id, t, args) => {
            assert_eq!(t, Tool::System);
            assert_eq!(to_text(&id), "5");
            assert_eq!(to_text(&args), "{}");
        }
        _ => panic!("expected a tool call"),
    }
    // A legacy reply carries no resultType.
    let raw = s.tool_reply(&read_json("5").unwrap(), &Err("x".to_string()));
    assert!(!raw.contains("resultType"));
}

#[test]
fn reply_json_spells_out_each_protocol_error() {
    let j = reply_json(&read_json("3").unwrap(), Era::Unknown, &Reply::Error(METHOD_NOT_FOUND, "unknown method 'x'".to_string()));
    assert_eq!(to_text(&j), r#"{"error":{"code":-32601,"message":"unknown method 'x'"},"id":3,"jsonrpc":"2.0"}"#);
    let j = reply_json(&read_json("null").unwrap(), Era::Modern, &Reply::Ping);
    assert_eq!(to_text(&j), r#"{"id":null,"jsonrpc":"2.0","result":{"resultType":"complete"}}"#);
    let j = reply_json(&read_json("null").unwrap(), Era::Legacy, &Reply::Ping);
    assert_eq!(to_text(&j), r#"{"id":null,"jsonrpc":"2.0","result":{}}"#);
}

#[test]
fn message_of_reads_only_string_fields() {
    let j = read_json(r#"{"id":null,"method":7,"params":{"name":"fit","protocolVersion":1}}"#);
    match message_of(&j) {
        Ok(m) => {
            assert!(m.has_id);
            assert_eq!(m.method, None);
            assert_eq!(m.tool, Some("fit".to_string()));
            assert_eq!(m.offered_version, None);
            assert_eq!(m.requested_version, None);
        }
        Err(_) => panic!("a JSON value is a message"),
    }
    match message_of(&Err("EOF".to_string())) {
        Err(Reply::Error(code, text)) => {
            assert_eq!(code, PARSE_ERROR);
            assert_eq!(text, "invalid JSON: EOF");
        }
        _ => panic!("a parse error is answered"),
    }
}

#[test]
fn a_message_without_a_method_is_an_invalid_request() {
    let mut s = Protocol::new();
    let m = Message { method: None, ..request("x") };
    match s.answer(&m) {
        Reply::Error(code, message) => {
            assert_eq!(code, INVALID_REQUEST);
            assert_eq!(message, "request has no method");
        }
        other => panic!("{other:?}"),
    }
}

#[test]
fn an_unknown_method_is_a_method_not_found_error() {
    let mut s = Protocol::new();
    match s.answer(&request("resources/list")) {
        Reply::Error(code, message) => {
            assert_eq!(code, METHOD_NOT_FOUND);
            assert_eq!(message, "unknown method 'resources/list'");
        }
        other => panic!("{other:?}"),
    }
    assert!(matches!(s.answer(&request("ping")), Reply::Ping));
}

#[test]
fn an_unknown_tool_is_a_protocol_error_not_a_tool_error() {
    let mut s = Protocol::new();
    match s.answer(&call("no_such_tool")) {
        Reply::Error(code, message) => {
            assert_eq!(code, INVALID_PARAMS);
            assert_eq!(message, "unknown tool: no_such_tool");
        }
        other => panic!("{other:?}"),
    }
    match s.answer(&request("tools/call")) {
        Reply::Error(code, message) => {
            assert_eq!(code, INVALID_PARAMS);
            assert_eq!(message, "tools/call needs a tool name");
        }
        other => panic!("{other:?}"),
    }
}

#[test]
fn a_bad_argument_is_a_tool_error_the_model_can_retry() {
    let text = use_case_argument(Some("sorcery"), UseCase::General).unwrap_err();
    assert!(text.contains("sorcery"), "the message should name the input");
    assert!(text.contains("general"), "the message should list the choices");
    assert_eq!(
        text,
        "unknown use case 'sorcery'. Try one of: general, coding, reasoning, chat, multimodal, embedding"
    );
    assert_eq!(use_case_argument(None, UseCase::Chat), Ok(UseCase::Chat));
    assert_eq!(use_case_argument(Some("Coding"), UseCase::Chat), Ok(UseCase::Coding));
}

#[test]
fn a_missing_required_argument_names_the_argument() {
    let e = required("name", None).unwrap_err();
    assert!(e.contains("'name'"));
    assert_eq!(e, "the 'name' argument is required");
    assert_eq!(required("name", Some("   ")), Err("the 'name' argument is required".to_string()));
    assert_eq!(required("name", Some("qwen")), Ok("qwen"));
}

#[test]
fn blank_text_arguments_count_as_absent() {
    assert_eq!(argument(Some("")), None);
    assert_eq!(argument(Some(" \t")), None);
    assert_eq!(argument(Some(" x ")), Some(" x "));
    assert_eq!(argument(None), None);
}

#[test]
fn plan_and_fit_arguments_name_their_choices() {
    assert_eq!(quant_argument(None), Ok(Quant::Q4KM));
    assert_eq!(quant_argument(Some("q8")), Ok(Quant::Q8_0));
    assert_eq!(
        quant_argument(Some("q9")),
        Err("unknown quantization 'q9'. Try one of: Q8_0, Q6_K, Q5_K_M, Q4_K_M, Q3_K_M, Q2_K".to_string())
    );
    assert_eq!(fit_argument(None), Ok(None));
    assert_eq!(fit_argument(Some("too_tight")), Ok(Some(FitLevel::TooTight)));
    assert_eq!(
        fit_argument(Some("flawless")),
        Err("unknown fit level 'flawless'. Try one of: perfect, good, marginal, too-tight".to_string())
    );
    assert_eq!(context_argument(None, 32768), Ok(32768));
    assert_eq!(context_argument(Some(8192), 32768), Ok(8192));
    assert_eq!(
        context_argument(Some(5_000_000_000), 32768),
        Err("context 5000000000 is out of range".to_string())
    );
}
