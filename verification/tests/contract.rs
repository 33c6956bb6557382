use base64::Engine;
use kexsh::ipc::codec::{encode_binary_frame, read_message, write_message};
use serde_json::Value;

/// A recorded exchange between the client ("cli") and the cloud ("do").
struct Scenario {
    steps: Vec<Step>,
    assertions: Value,
}

struct Step {
    direction: String,
    message: Option<Value>,
    binary: Option<BinaryStep>,
}

struct BinaryStep {
    frame_type: String,
    id: String,
    payload_base64: String,
}

fn scenario_text(name: &str) -> &'static str {
    match name {
        "terminal-sync-happy.json" => {
            r#"{
              "steps": [
                {"direction": "cli→do",
                 "message": {"v": 1, "type": "terminal.sync",
                             "payload": {"terminalId": "abcd1234", "name": "dev"}}},
                {"direction": "do→cli",
                 "message": {"v": 1, "type": "terminal.sync.ok",
                             "payload": {"terminalId": "abcd1234"}}},
                {"direction": "cli→do",
                 "binary": {"type": "0x01", "id": "abcd1234", "payload_base64": "aGVsbG8gd29ybGQ="}}
              ],
              "assertions": {
                "cli": {"terminal_synced": {"id": "abcd1234"}},
                "do": {"terminal_output_received":
                        {"id": "abcd1234", "payload_base64": "aGVsbG8gd29ybGQ="}}
              }
            }"#
        }
        _ => panic!("no scenario {name}"),
    }
}

/// Sends a JSON value through the framing and gives what arrives.
fn carried(sent: &Value) -> Value {
    let mut stream: Vec<u8> = Vec::new();
    write_message(&mut stream, &serde_json::to_vec(sent).unwrap());
    let received = read_message(&mut stream.as_slice()).unwrap();
    serde_json::from_slice(&received).unwrap()
}

fn load_scenario(name: &str) -> Scenario {
    let value: Value = serde_json::from_str(scenario_text(name)).unwrap();
    let value = carried(&value);
    let steps = value["steps"]
        .as_array()
        .unwrap()
        .iter()
        .map(|step| Step {
            direction: step["direction"].as_str().unwrap().to_string(),
            message: step.get("message").map(carried),
            binary: step.get("binary").map(|b| BinaryStep {
                frame_type: b["type"].as_str().unwrap().to_string(),
                id: b["id"].as_str().unwrap().to_string(),
                payload_base64: b["payload_base64"].as_str().unwrap().to_string(),
            }),
        })
        .collect();
    Scenario { steps, assertions: value["assertions"].clone() }
}

fn filter_steps<'a>(scenario: &'a Scenario, direction: &str) -> Vec<&'a Step> {
    scenario.steps.iter().filter(|s| s.direction == direction).collect()
}

#[test]
fn contract_terminal_sync_binary_frame_encoding() {
    let scenario = load_scenario("terminal-sync-happy.json");

    let cli_to_do = filter_steps(&scenario, "cli→do");
    let binary_step = cli_to_do
        .iter()
        .find(|s| s.binary.is_some())
        .expect("scenario missing cli→do binary step");

    let bin = binary_step.binary.as_ref().unwrap();

    let frame_type = u8::from_str_radix(bin.frame_type.trim_start_matches("0x"), 16).unwrap();
    let expected_payload = base64::engine::general_purpose::STANDARD
        .decode(&bin.payload_base64)
        .unwrap();

    let frame = encode_binary_frame(&bin.id, frame_type, &expected_payload);

    // [1B type][8B id][payload]
    assert_eq!(frame[0], frame_type);
    assert_eq!(
        std::str::from_utf8(&frame[1..9]).unwrap().trim_end_matches('\0'),
        bin.id
    );
    assert_eq!(&frame[9..], &expected_payload);
}

#[test]
fn contract_terminal_sync_ok_response_format() {
    let scenario = load_scenario("terminal-sync-happy.json");

    let do_to_cli = filter_steps(&scenario, "do→cli");
    let sync_ok_step = do_to_cli
        .iter()
        .find(|s| s.message.as_ref().is_some_and(|m| m["type"] == "terminal.sync.ok"))
        .expect("scenario missing terminal.sync.ok step");

    let sync_ok_msg = sync_ok_step.message.as_ref().unwrap();

    assert_eq!(sync_ok_msg["v"], 1);
    assert_eq!(sync_ok_msg["type"], "terminal.sync.ok");
    assert!(
        sync_ok_msg["payload"]["terminalId"].is_string(),
        "sync.ok must have terminalId"
    );
}

#[test]
fn contract_terminal_sync_assertions_match() {
    let scenario = load_scenario("terminal-sync-happy.json");

    let cli_assertions = &scenario.assertions["cli"];
    let synced = &cli_assertions["terminal_synced"];
    assert!(synced["id"].is_string(), "assertion must specify terminal id");

    let do_assertions = &scenario.assertions["do"];
    let output = &do_assertions["terminal_output_received"];
    assert!(output["id"].is_string());
    assert!(output["payload_base64"].is_string());

    let expected_b64 = output["payload_base64"].as_str().unwrap();
    let decoded = base64::engine::general_purpose::STANDARD.decode(expected_b64).unwrap();
    assert_eq!(
        String::from_utf8_lossy(&decoded),
        "hello world",
        "scenario payload should decode to 'hello world'"
    );
}
