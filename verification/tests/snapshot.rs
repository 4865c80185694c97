use herdr_glance_core::herdr::HerdrError;
use herdr_glance_core::json::{JsonMember, JsonValue};
use herdr_glance_core::snapshot::{parse_snapshot, snapshot_agents, status_priority, AgentView};

fn s(text: &str) -> JsonValue {
    JsonValue::String(text.to_string())
}

fn obj(members: Vec<(&str, JsonValue)>) -> JsonValue {
    JsonValue::Object(
        members
            .into_iter()
            .map(|(name, value)| JsonMember { name: name.to_string(), value })
            .collect(),
    )
}

fn payload(snapshot: JsonValue) -> JsonValue {
    obj(vec![("result", obj(vec![("snapshot", snapshot)]))])
}

fn parse(payload: &JsonValue) -> Vec<AgentView> {
    parse_snapshot(payload).unwrap()
}

#[test]
fn parses_and_sorts_agents() {
    let payload = payload(obj(vec![
        (
            "workspaces",
            JsonValue::Array(vec![
                obj(vec![("workspace_id", s("w1")), ("label", s("Glance"))]),
                obj(vec![("workspace_id", s("w2")), ("label", s("API"))]),
            ]),
        ),
        (
            "tabs",
            JsonValue::Array(vec![
                obj(vec![("tab_id", s("w1:t1")), ("label", s("UI"))]),
                obj(vec![("tab_id", s("w2:t1")), ("label", s("Research"))]),
            ]),
        ),
        (
            "agents",
            JsonValue::Array(vec![
                obj(vec![
                    ("agent", s("codex")),
                    ("agent_status", s("working")),
                    ("name", s("account-name")),
                    ("pane_id", s("w1:p1")),
                    ("workspace_id", s("w1")),
                    ("tab_id", s("w1:t1")),
                    ("focused", JsonValue::Bool(true)),
                ]),
                obj(vec![
                    ("agent", s("gemini")),
                    ("agent_status", s("blocked")),
                    ("terminal_title_stripped", s("socket contract")),
                    ("pane_id", s("w2:p1")),
                    ("workspace_id", s("w2")),
                    ("tab_id", s("w2:t1")),
                    ("focused", JsonValue::Bool(false)),
                ]),
            ]),
        ),
    ]));

    let agents = parse_snapshot(&payload).unwrap();
    assert_eq!(agents[0].status, "blocked");
    assert_eq!(agents[0].name, "API - gemini");
    assert_eq!(agents[0].workspace, "API");
    assert_eq!(agents[1].status, "working");
    assert_eq!(agents[1].name, "Glance - codex");
    assert!(agents[1].focused);
}

#[test]
fn rejects_malformed_snapshot() {
    assert!(matches!(
        parse_snapshot(&obj(vec![("result", JsonValue::Null)])),
        Err(HerdrError::Snapshot)
    ));
}

#[test]
fn names_agents_from_workspace_and_kind() {
    let payload = payload(obj(vec![
        (
            "workspaces",
            JsonValue::Array(vec![obj(vec![("workspace_id", s("w1")), ("label", s("glance"))])]),
        ),
        ("tabs", JsonValue::Array(vec![obj(vec![("tab_id", s("w1:t1")), ("label", s("1"))])])),
        (
            "agents",
            JsonValue::Array(vec![obj(vec![
                ("agent", s("codex")),
                ("agent_status", s("working")),
                ("name", s("account-name")),
                ("terminal_title_stripped", s("account-name")),
                ("pane_id", s("w1:p1")),
                ("workspace_id", s("w1")),
                ("tab_id", s("w1:t1")),
            ])]),
        ),
    ]));

    let agents = parse_snapshot(&payload).unwrap();
    assert_eq!(agents[0].name, "glance - codex");
}

#[test]
fn decodes_and_parses_snapshot_output() {
    let output = br#"{"result":{"snapshot":{
        "workspaces":[{"workspace_id":"w1","label":" Glance "},{"workspace_id":"w2","label":""}],
        "tabs":[{"tab_id":"t1","label":"UI"}],
        "agents":[
            {"agent":"codex","agent_status":"idle","pane_id":"w1:p1","workspace_id":"w1","tab_id":"t1"},
            {"display_agent":"Gemini CLI","agent":"gemini","agent_status":"done","pane_id":"w2:p1","workspace_id":"w2","tab_id":"t9","focused":1},
            {"agent":"x","pane_id":"   "},
            "not an object",
            {"agent_status":"asleep","pane_id":"p3"}
        ]}}}"#;
    let agents = snapshot_agents(output).unwrap();
    assert_eq!(agents.len(), 3);
    assert_eq!(agents[0].pane_id, "w1:p1");
    assert_eq!(agents[0].workspace, "Glance");
    assert_eq!(agents[0].tab, "UI");
    assert_eq!(agents[0].name, "Glance - codex");
    assert_eq!(agents[0].status, "idle");
    assert_eq!(agents[1].pane_id, "w2:p1");
    assert_eq!(agents[1].workspace, "w2");
    assert_eq!(agents[1].tab, "t9");
    assert_eq!(agents[1].kind, "Gemini CLI");
    assert_eq!(agents[1].name, "w2 - Gemini CLI");
    assert!(!agents[1].focused);
    assert_eq!(agents[2].pane_id, "p3");
    assert_eq!(agents[2].workspace, "");
    assert_eq!(agents[2].name, "p3 - agent");
    assert_eq!(agents[2].status, "unknown");
}

#[test]
fn reports_invalid_json_and_missing_agents() {
    assert!(matches!(snapshot_agents(b"{not json"), Err(HerdrError::Json(_))));
    assert!(matches!(snapshot_agents(b"[]"), Err(HerdrError::Snapshot)));
    assert!(matches!(
        snapshot_agents(br#"{"result":{"snapshot":{"agents":{}}}}"#),
        Err(HerdrError::Snapshot)
    ));
    assert!(matches!(
        snapshot_agents(br#"{"result":{"snapshot":[1]}}"#),
        Err(HerdrError::Snapshot)
    ));
    assert_eq!(snapshot_agents(br#"{"result":{"snapshot":{"agents":[]}}}"#).unwrap().len(), 0);
}

#[test]
fn sorts_by_status_then_workspace_then_name_then_pane() {
    let agent = |pane: &str, ws: &str, kind: &str, status: &str| {
        obj(vec![
            ("pane_id", s(pane)),
            ("workspace_id", s(ws)),
            ("agent", s(kind)),
            ("agent_status", s(status)),
        ])
    };
    let payload = payload(obj(vec![(
        "agents",
        JsonValue::Array(vec![
            agent("p1", "beta", "codex", "done"),
            agent("p2", "Beta", "codex", "unknown-thing"),
            agent("p3", "alpha", "codex", "idle"),
            agent("p4", "Beta", "Aider", "idle"),
            agent("p6", "beta", "codex", "idle"),
            agent("p5", "beta", "codex", "idle"),
            agent("p7", "zeta", "codex", "working"),
            agent("p8", "zeta", "codex", "blocked"),
        ]),
    )]));
    let order: Vec<String> = parse(&payload).into_iter().map(|a| a.pane_id).collect();
    assert_eq!(order, vec!["p8", "p7", "p3", "p4", "p5", "p6", "p1", "p2"]);
}

#[test]
fn later_label_wins_and_blank_labels_fall_back_to_id() {
    let payload = payload(obj(vec![
        (
            "workspaces",
            JsonValue::Array(vec![
                obj(vec![("workspace_id", s("w1")), ("label", s("Old"))]),
                obj(vec![("workspace_id", s("w1")), ("label", s("New"))]),
                obj(vec![("workspace_id", s(""))]),
                JsonValue::Null,
            ]),
        ),
        (
            "agents",
            JsonValue::Array(vec![obj(vec![("pane_id", s("p")), ("workspace_id", s("w1"))])]),
        ),
    ]));
    let agents = parse(&payload);
    assert_eq!(agents[0].workspace, "New");
    assert_eq!(agents[0].tab, "");
}

#[test]
fn ranks_statuses() {
    assert_eq!(status_priority("blocked"), 0);
    assert_eq!(status_priority("working"), 1);
    assert_eq!(status_priority("idle"), 2);
    assert_eq!(status_priority("done"), 3);
    assert_eq!(status_priority("unknown"), 4);
    assert_eq!(status_priority("Blocked"), 4);
}

#[test]
fn agent_order_in_snapshot_does_not_matter() {
    let agent = |pane: &str, ws: &str, status: &str| {
        obj(vec![
            ("pane_id", s(pane)),
            ("workspace_id", s(ws)),
            ("agent", s("codex")),
            ("agent_status", s(status)),
        ])
    };
    let entries = vec![
        ("p1", "w", "idle"),
        ("p2", "W", "idle"),
        ("p3", "a", "blocked"),
        ("p4", "w", "done"),
    ];
    let build = |order: &[usize]| {
        payload(obj(vec![(
            "agents",
            JsonValue::Array(
                order
                    .iter()
                    .map(|&i| agent(entries[i].0, entries[i].1, entries[i].2))
                    .collect(),
            ),
        )]))
    };
    let first = parse(&build(&[0, 1, 2, 3]));
    let second = parse(&build(&[3, 1, 0, 2]));
    assert_eq!(first, second);
    let order: Vec<&str> = first.iter().map(|a| a.pane_id.as_str()).collect();
    assert_eq!(order, vec!["p3", "p1", "p2", "p4"]);
}
