use netwatch::codec::parse_frame;
use netwatch::codec::HeaderKey;
use netwatch::control::{handle_request, ControlAction};
use netwatch::json::JsonVal;
use netwatch::registry::Registry;

fn key(tag: u8) -> HeaderKey {
    let mut f = vec![0u8; 14];
    f[5] = tag;
    f[12] = 0x08;
    f[13] = 0x06;
    parse_frame(&f).unwrap()
}

fn obj(v: &JsonVal) -> &Vec<(String, JsonVal)> {
    match v {
        JsonVal::Obj(m) => m,
        other => panic!("expected object, got {:?}", other),
    }
}

fn arr(v: &JsonVal) -> &Vec<JsonVal> {
    match v {
        JsonVal::Arr(a) => a,
        other => panic!("expected array, got {:?}", other),
    }
}

fn field<'a>(v: &'a JsonVal, name: &str) -> &'a JsonVal {
    &obj(v).iter().find(|(k, _)| k == name).expect("missing field").1
}

#[test]
fn start_on_a_new_name_spawns() {
    let mut reg = Registry::new();
    assert!(reg.start(&"eth0".to_string(), 0, Some(1)));
    assert_eq!(reg.len(), 1);
}

#[test]
fn start_is_idempotent_while_open() {
    // an already-open session gets no second capture task and keeps history
    let mut reg = Registry::new();
    let name = "eth0".to_string();
    assert!(reg.start(&name, 0, None));
    reg.record_frame(&name, key(1), 10);
    reg.flush_all(1000, 60);
    assert!(!reg.start(&name, 2000, None), "second start must not spawn");
    let all = reg.all_json();
    let snapshot = &obj(&all)[0].1;
    let history = arr(field(snapshot, "history"));
    assert_eq!(history.len(), 1, "existing history must not be reset");
}

#[test]
fn stop_then_start_reuses_the_entry() {
    let mut reg = Registry::new();
    let name = "eth0".to_string();
    assert!(reg.start(&name, 0, Some(7)));
    reg.record_frame(&name, key(1), 10);
    reg.flush_all(1000, 60);
    reg.stop(&name);
    // stale bytes sit in the in-flight buffer when the session restarts
    reg.record_frame(&name, key(1), 999);
    assert!(reg.start(&name, 2000, None), "restart must spawn a capture task");
    assert_eq!(reg.len(), 1, "the entry is reused, not duplicated");
    reg.flush_all(3000, 60);

    let all = reg.all_json();
    let snapshot = &obj(&all)[0].1;
    let history = arr(field(snapshot, "history"));
    // prior interval, restart boundary, and the flush after the restart
    assert_eq!(history.len(), 3);
    let prior = arr(&history[0]);
    assert!(!obj(&prior[1]).is_empty(), "prior history is kept");
    let boundary = arr(&history[1]);
    assert_eq!(
        match boundary[0] {
            JsonVal::UInt(t) => t,
            _ => panic!("expected timestamp"),
        },
        2000
    );
    assert!(obj(&boundary[1]).is_empty(), "the new bucket starts empty");
    let after = arr(&history[2]);
    assert!(
        obj(&after[1]).is_empty(),
        "bytes recorded while stopped were cleared by the restart"
    );
    match field(snapshot, "mac") {
        JsonVal::Str(m) => assert_eq!(m, "00:00:00:00:00:07"),
        other => panic!("expected the original mac, got {:?}", other),
    }
}

#[test]
fn stop_on_unknown_name_changes_nothing() {
    let mut reg = Registry::new();
    reg.stop(&"missing".to_string());
    assert_eq!(reg.len(), 0);
}

#[test]
fn clear_removes_the_entry() {
    let mut reg = Registry::new();
    let name = "eth0".to_string();
    reg.start(&name, 0, None);
    reg.clear(&name);
    assert_eq!(reg.len(), 0);
}

#[test]
fn clear_on_a_never_seen_name_is_a_no_op() {
    let mut reg = Registry::new();
    reg.start(&"wlan0".to_string(), 0, None);
    let request = JsonVal::Obj(vec![(
        "clear_interfaces".to_string(),
        JsonVal::Str("eth0".to_string()),
    )]);
    let interfaces = vec!["eth0".to_string(), "wlan0".to_string()];
    let (response, action) = handle_request(&mut reg, request, &interfaces);
    assert!(matches!(response, JsonVal::Null));
    assert!(matches!(action, ControlAction::Nothing));
    assert_eq!(reg.len(), 1, "other sessions are unaffected");

    // a subsequent get_interfaces is unaffected
    let (response, _) = handle_request(
        &mut reg,
        JsonVal::Str("get_interfaces".to_string()),
        &interfaces,
    );
    let names = arr(&response);
    assert_eq!(names.len(), 2);
    assert!(matches!(&names[0], JsonVal::Str(s) if s == "eth0"));
    assert!(matches!(&names[1], JsonVal::Str(s) if s == "wlan0"));
}

#[test]
fn get_all_lists_every_session() {
    let mut reg = Registry::new();
    reg.start(&"eth0".to_string(), 0, None);
    reg.start(&"wlan0".to_string(), 0, None);
    let (response, action) =
        handle_request(&mut reg, JsonVal::Str("get_all".to_string()), &Vec::new());
    assert!(matches!(action, ControlAction::Nothing));
    let m = obj(&response);
    assert_eq!(m.len(), 2);
    assert_eq!(m[0].0, "eth0");
    assert_eq!(m[1].0, "wlan0");
}

#[test]
fn listen_request_becomes_a_start_action() {
    let mut reg = Registry::new();
    let request = JsonVal::Obj(vec![(
        "listen_interfaces".to_string(),
        JsonVal::Str("eth0".to_string()),
    )]);
    let (response, action) = handle_request(&mut reg, request, &Vec::new());
    assert!(matches!(response, JsonVal::Null));
    match action {
        ControlAction::StartCapture(name) => assert_eq!(name, "eth0"),
        other => panic!("expected a start action, got {:?}", other),
    }
    assert_eq!(reg.len(), 0, "the session starts only when the caller spawns");
}

#[test]
fn not_listen_request_closes_the_session() {
    let mut reg = Registry::new();
    let name = "eth0".to_string();
    reg.start(&name, 0, None);
    let request = JsonVal::Obj(vec![(
        "not_listen_interfaces".to_string(),
        JsonVal::Str(name.clone()),
    )]);
    let (response, action) = handle_request(&mut reg, request, &Vec::new());
    assert!(matches!(response, JsonVal::Null));
    assert!(matches!(action, ControlAction::Nothing));
    assert_eq!(reg.len(), 1, "stopping keeps the entry for queries");
    let all = reg.all_json();
    match field(&obj(&all)[0].1, "closed") {
        JsonVal::Bool(closed) => assert!(closed),
        other => panic!("expected bool, got {:?}", other),
    }
}

#[test]
fn get_request_honours_watermarks() {
    let mut reg = Registry::new();
    let name = "eth0".to_string();
    reg.start(&name, 0, None);
    reg.record_frame(&name, key(1), 100);
    reg.flush_all(1000, 60);
    reg.record_frame(&name, key(1), 50);
    reg.flush_all(2000, 60);

    let request = JsonVal::Obj(vec![(
        "get".to_string(),
        JsonVal::Obj(vec![(name.clone(), JsonVal::UInt(1000))]),
    )]);
    let (response, _) = handle_request(&mut reg, request, &Vec::new());
    let snapshot = field(&response, "eth0");
    let history = arr(field(snapshot, "history"));
    assert_eq!(history.len(), 2);
    assert!(matches!(arr(&history[0])[1], JsonVal::Null));
    assert!(!matches!(arr(&history[1])[1], JsonVal::Null));

    // a name without a watermark gets the full snapshot
    let request = JsonVal::Obj(vec![("get".to_string(), JsonVal::Obj(Vec::new()))]);
    let (response, _) = handle_request(&mut reg, request, &Vec::new());
    let history = arr(field(field(&response, "eth0"), "history"));
    assert!(history.iter().all(|e| !matches!(arr(e)[1], JsonVal::Null)));
}

#[test]
fn unrecognized_requests_answer_null() {
    let mut reg = Registry::new();
    let cases = vec![
        JsonVal::Str("bogus".to_string()),
        JsonVal::Obj(vec![("bogus".to_string(), JsonVal::UInt(1))]),
        JsonVal::Obj(vec![("get".to_string(), JsonVal::Str("x".to_string()))]),
        JsonVal::Obj(vec![("listen_interfaces".to_string(), JsonVal::UInt(3))]),
        JsonVal::Obj(Vec::new()),
        JsonVal::Null,
        JsonVal::Bool(true),
        JsonVal::UInt(7),
        JsonVal::NumOther,
        JsonVal::Arr(Vec::new()),
    ];
    for request in cases {
        let (response, action) = handle_request(&mut reg, request, &Vec::new());
        assert!(matches!(response, JsonVal::Null));
        assert!(matches!(action, ControlAction::Nothing));
        assert_eq!(reg.len(), 0);
    }
}

#[test]
fn closed_sessions_are_still_flushed() {
    let mut reg = Registry::new();
    let name = "eth0".to_string();
    reg.start(&name, 0, None);
    reg.stop(&name);
    reg.flush_all(1000, 60);
    reg.flush_all(2000, 60);
    let all = reg.all_json();
    let history = arr(field(&obj(&all)[0].1, "history"));
    assert_eq!(history.len(), 2, "the timeline stays continuous after a stop");
}
