//! The agents of a Herdr session snapshot, in the order the widget shows them.
use vstd::prelude::*;
use vstd::string::StringExecFns;

use crate::herdr::HerdrError;
use crate::json::{canonical_json, decode_json, json_document, json_same, json_text, JsonMember, JsonValue};
use crate::text::{
    chars_eq, chars_of, lowercase, lowercase_of, push_chars, push_str, string_from_chars, trim, trim_chars,
};

verus! {

/// The value of the first member named `key`.
pub open spec fn member_value(members: Seq<JsonMember>, key: Seq<char>) -> Option<JsonValue>
    decreases members.len(),
{
    if members.len() == 0 {
        None
    } else if members[0].name@ == key {
        Some(members[0].value)
    } else {
        member_value(members.drop_first(), key)
    }
}

/// The member named `key` of an object; nothing for any other value.
pub open spec fn member_of(value: JsonValue, key: Seq<char>) -> Option<JsonValue> {
    match value {
        JsonValue::Object(members) => member_value(members@, key),
        _ => None,
    }
}

/// A string value, trimmed; the empty text for anything else.
pub open spec fn text_of(value: Option<JsonValue>) -> Seq<char> {
    match value {
        Some(JsonValue::String(s)) => trim(s@),
        _ => Seq::empty(),
    }
}

/// The (id, label) pairs of a list of items, skipping items without an id.
pub open spec fn label_pairs(items: Seq<JsonValue>, id_key: Seq<char>) -> Seq<(Seq<char>, Seq<char>)>
    decreases items.len(),
{
    if items.len() == 0 {
        Seq::empty()
    } else {
        let rest = label_pairs(items.drop_last(), id_key);
        let id = text_of(member_of(items.last(), id_key));
        if id.len() > 0 {
            rest.push((id, text_of(member_of(items.last(), "label"@))))
        } else {
            rest
        }
    }
}

/// The label pairs of an array; none for anything else.
pub open spec fn labels_of(list: Option<JsonValue>, id_key: Seq<char>) -> Seq<(Seq<char>, Seq<char>)> {
    match list {
        Some(JsonValue::Array(items)) => label_pairs(items@, id_key),
        _ => Seq::empty(),
    }
}

/// The label of the last pair with this id.
pub open spec fn label_lookup(pairs: Seq<(Seq<char>, Seq<char>)>, id: Seq<char>) -> Option<Seq<char>>
    decreases pairs.len(),
{
    if pairs.len() == 0 {
        None
    } else if pairs.last().0 == id {
        Some(pairs.last().1)
    } else {
        label_lookup(pairs.drop_last(), id)
    }
}

/// The non-empty label of `id`, or `id` itself.
pub open spec fn label_or_id(pairs: Seq<(Seq<char>, Seq<char>)>, id: Seq<char>) -> Seq<char> {
    match label_lookup(pairs, id) {
        Some(label) => if label.len() > 0 {
            label
        } else {
            id
        },
        None => id,
    }
}

/// The views of label pairs held as character vectors.
pub open spec fn pairs_view(pairs: Seq<(Vec<char>, Vec<char>)>) -> Seq<(Seq<char>, Seq<char>)> {
    pairs.map_values(|p: (Vec<char>, Vec<char>)| (p.0@, p.1@))
}

/// The member named `key` of an object.
pub fn member<'a>(value: &'a JsonValue, key: &str) -> (r: Option<&'a JsonValue>)
    ensures
        match member_of(*value, key@) {
            Some(v) => r matches Some(x) && *x == v,
            None => r is None,
        },
{
    match value {
        JsonValue::Object(members) => {
            let name = String::from_str(key);
            let len = members.len();
            let mut i: usize = 0;
            assert(members@.subrange(0, len as int) == members@);
            while i < len
                invariant
                    len == members@.len(),
                    i <= len,
                    name@ == key@,
                    member_of(*value, key@) == member_value(members@, key@),
                    member_value(members@, key@) == member_value(members@.subrange(i as int, len as int), key@),
                decreases len - i,
            {
                if members[i].name == name {
                    assert(members@.subrange(i as int, len as int)[0] == members@[i as int]);
                    return Some(&members[i].value);
                }
                assert(members@.subrange(i as int, len as int).drop_first() == members@.subrange(i + 1, len as int));
                i = i + 1;
            }
            None
        },
        _ => None,
    }
}

/// The trimmed string member named `key`, or the empty text.
pub fn text_member(value: &JsonValue, key: &str) -> (r: Vec<char>)
    ensures
        r@ == text_of(member_of(*value, key@)),
{
    match member(value, key) {
        Some(JsonValue::String(s)) => trim_chars(&chars_of(s.as_str())),
        _ => Vec::new(),
    }
}

/// The (id, label) pairs of the array member `list_key` of `snapshot`.
pub fn labels_by_id(snapshot: &JsonValue, list_key: &str, id_key: &str) -> (r: Vec<(Vec<char>, Vec<char>)>)
    ensures
        pairs_view(r@) == labels_of(member_of(*snapshot, list_key@), id_key@),
{
    let mut r: Vec<(Vec<char>, Vec<char>)> = Vec::new();
    match member(snapshot, list_key) {
        Some(JsonValue::Array(items)) => {
            for i in 0..items.len()
                invariant
                    pairs_view(r@) == label_pairs(items@.take(i as int), id_key@),
            {
                assert(items@.take(i + 1).drop_last() == items@.take(i as int));
                let id = text_member(&items[i], id_key);
                if id.len() > 0 {
                    let label = text_member(&items[i], "label");
                    let ghost before = r@;
                    r.push((id, label));
                    assert(pairs_view(r@) =~= pairs_view(before).push((id@, label@)));
                }
            }
            assert(items@.take(items@.len() as int) == items@);
            r
        },
        _ => r,
    }
}

/// The non-empty label of `id`, or `id` itself.
pub fn label_for(pairs: &Vec<(Vec<char>, Vec<char>)>, id: &Vec<char>) -> (r: Vec<char>)
    ensures
        r@ == label_or_id(pairs_view(pairs@), id@),
{
    let mut found: Option<usize> = None;
    for i in 0..pairs.len()
        invariant
            match label_lookup(pairs_view(pairs@).take(i as int), id@) {
                Some(l) => found matches Some(k) && k < i && pairs@[k as int].1@ == l,
                None => found is None,
            },
    {
        assert(pairs_view(pairs@).take(i + 1).drop_last() == pairs_view(pairs@).take(i as int));
        if chars_eq(&pairs[i].0, id) {
            found = Some(i);
        }
    }
    assert(pairs_view(pairs@).take(pairs@.len() as int) == pairs_view(pairs@));
    match found {
        Some(k) => {
            if pairs[k].1.len() > 0 {
                let mut out: Vec<char> = Vec::new();
                let label = &pairs[k].1;
                for j in 0..label.len()
                    invariant
                        out@ == label@.take(j as int),
                {
                    out.push(label[j]);
                    assert(label@.take(j + 1) == label@.take(j as int).push(label@[j as int]));
                }
                assert(label@.take(label@.len() as int) == label@);
                out
            } else {
                copy_chars(id)
            }
        },
        None => copy_chars(id),
    }
}

/// A copy of a character vector.
pub fn copy_chars(s: &Vec<char>) -> (r: Vec<char>)
    ensures
        r@ == s@,
{
    let mut out: Vec<char> = Vec::new();
    for j in 0..s.len()
        invariant
            out@ == s@.take(j as int),
    {
        out.push(s[j]);
        assert(s@.take(j + 1) == s@.take(j as int).push(s@[j as int]));
    }
    assert(s@.take(s@.len() as int) == s@);
    out
}


/// One agent as the widget shows it.
#[derive(Debug, Clone, PartialEq, Eq)]
pub struct AgentView {
    pub pane_id: String,
    pub workspace: String,
    pub tab: String,
    pub name: String,
    pub kind: String,
    pub status: String,
    pub focused: bool,
}

/// The contents of an `AgentView`, as character sequences.
pub struct AgentRecord {
    pub pane_id: Seq<char>,
    pub workspace: Seq<char>,
    pub tab: Seq<char>,
    pub name: Seq<char>,
    pub kind: Seq<char>,
    pub status: Seq<char>,
    pub focused: bool,
}

impl AgentView {
    pub open spec fn record(&self) -> AgentRecord {
        AgentRecord {
            pane_id: self.pane_id@,
            workspace: self.workspace@,
            tab: self.tab@,
            name: self.name@,
            kind: self.kind@,
            status: self.status@,
            focused: self.focused,
        }
    }
}

/// The records of a list of agents.
pub open spec fn records_of(agents: Seq<AgentView>) -> Seq<AgentRecord> {
    agents.map_values(|a: AgentView| a.record())
}

/// The status words Herdr reports; anything else is `unknown`.
pub open spec fn status_word(reported: Seq<char>) -> Seq<char> {
    if reported == "working"@ || reported == "blocked"@ || reported == "idle"@ || reported == "done"@ {
        reported
    } else {
        "unknown"@
    }
}

/// The agent program: `display_agent`, else `agent`, else the word `agent`.
pub open spec fn agent_kind(agent: JsonValue) -> Seq<char> {
    let display = text_of(member_of(agent, "display_agent"@));
    let program = text_of(member_of(agent, "agent"@));
    if display.len() > 0 {
        display
    } else if program.len() > 0 {
        program
    } else {
        "agent"@
    }
}

/// Whether the agent's pane has focus; `false` unless `focused` is a boolean.
pub open spec fn focused_flag(agent: JsonValue) -> bool {
    match member_of(agent, "focused"@) {
        Some(JsonValue::Bool(b)) => b,
        _ => false,
    }
}

/// The record for one agent object of a snapshot.
pub open spec fn agent_record(
    agent: JsonValue,
    workspaces: Seq<(Seq<char>, Seq<char>)>,
    tabs: Seq<(Seq<char>, Seq<char>)>,
) -> AgentRecord {
    let pane_id = text_of(member_of(agent, "pane_id"@));
    let workspace = label_or_id(workspaces, text_of(member_of(agent, "workspace_id"@)));
    let kind = agent_kind(agent);
    let context = if workspace.len() == 0 {
        pane_id
    } else {
        workspace
    };
    AgentRecord {
        pane_id,
        workspace,
        tab: label_or_id(tabs, text_of(member_of(agent, "tab_id"@))),
        name: context + " - "@ + kind,
        kind,
        status: status_word(text_of(member_of(agent, "agent_status"@))),
        focused: focused_flag(agent),
    }
}

/// The records of the agents that have a pane identifier, in snapshot order.
pub open spec fn agent_records(
    agents: Seq<JsonValue>,
    workspaces: Seq<(Seq<char>, Seq<char>)>,
    tabs: Seq<(Seq<char>, Seq<char>)>,
) -> Seq<AgentRecord>
    decreases agents.len(),
{
    if agents.len() == 0 {
        Seq::empty()
    } else {
        let rest = agent_records(agents.drop_last(), workspaces, tabs);
        if text_of(member_of(agents.last(), "pane_id"@)).len() > 0 {
            rest.push(agent_record(agents.last(), workspaces, tabs))
        } else {
            rest
        }
    }
}

/// The rank of a status: blocked first, then working, idle, done, and the rest.
pub open spec fn status_rank(status: Seq<char>) -> u8 {
    if status == "blocked"@ {
        0
    } else if status == "working"@ {
        1
    } else if status == "idle"@ {
        2
    } else if status == "done"@ {
        3
    } else {
        4
    }
}

/// Lexicographic order of character sequences by code point.
pub open spec fn chars_lt(a: Seq<char>, b: Seq<char>) -> bool
    decreases a.len(),
{
    if a.len() == 0 {
        b.len() > 0
    } else if b.len() == 0 {
        false
    } else if a[0] != b[0] {
        a[0] < b[0]
    } else {
        chars_lt(a.drop_first(), b.drop_first())
    }
}

/// The order of the widget: by status rank, then workspace and name compared in
/// lowercase, then pane identifier.
pub open spec fn record_lt(a: AgentRecord, b: AgentRecord) -> bool {
    let (ra, rb) = (status_rank(a.status), status_rank(b.status));
    let (wa, wb) = (lowercase_of(a.workspace), lowercase_of(b.workspace));
    let (na, nb) = (lowercase_of(a.name), lowercase_of(b.name));
    ||| ra < rb
    ||| ra == rb && chars_lt(wa, wb)
    ||| ra == rb && wa == wb && chars_lt(na, nb)
    ||| ra == rb && wa == wb && na == nb && chars_lt(a.pane_id, b.pane_id)
}

/// `x` placed after every element that does not order after it.
pub open spec fn insert_sorted(sorted: Seq<AgentRecord>, x: AgentRecord) -> Seq<AgentRecord>
    decreases sorted.len(),
{
    if sorted.len() == 0 {
        seq![x]
    } else if record_lt(x, sorted[0]) {
        seq![x] + sorted
    } else {
        seq![sorted[0]] + insert_sorted(sorted.drop_first(), x)
    }
}

/// The stable sort of records by `record_lt`.
pub open spec fn sort_records(s: Seq<AgentRecord>) -> Seq<AgentRecord>
    decreases s.len(),
{
    if s.len() == 0 {
        Seq::empty()
    } else {
        insert_sorted(sort_records(s.drop_last()), s.last())
    }
}

/// The agents of a session snapshot payload, or `None` when it has no
/// `result.snapshot` object or that object has no `agents` array.
pub open spec fn snapshot_records(payload: JsonValue) -> Option<Seq<AgentRecord>> {
    match member_of(payload, "result"@) {
        Some(result) => match member_of(result, "snapshot"@) {
            Some(snapshot) => if snapshot is Object {
                match member_of(snapshot, "agents"@) {
                    Some(JsonValue::Array(agents)) => Some(
                        sort_records(
                            agent_records(
                                agents@,
                                labels_of(member_of(snapshot, "workspaces"@), "workspace_id"@),
                                labels_of(member_of(snapshot, "tabs"@), "tab_id"@),
                            ),
                        ),
                    ),
                    _ => None,
                }
            } else {
                None
            },
            None => None,
        },
        None => None,
    }
}


/// The rank of a status in the widget's order.
pub fn status_priority(status: &str) -> (r: u8)
    ensures
        r == status_rank(status@),
{
    let status = String::from_str(status);
    if status == String::from_str("blocked") {
        0
    } else if status == String::from_str("working") {
        1
    } else if status == String::from_str("idle") {
        2
    } else if status == String::from_str("done") {
        3
    } else {
        4
    }
}

/// Builds the agent for one agent object of a snapshot.
pub fn build_agent(
    agent: &JsonValue,
    workspaces: &Vec<(Vec<char>, Vec<char>)>,
    tabs: &Vec<(Vec<char>, Vec<char>)>,
) -> (r: AgentView)
    ensures
        r.record() == agent_record(*agent, pairs_view(workspaces@), pairs_view(tabs@)),
{
    let pane_id = text_member(agent, "pane_id");
    let workspace = label_for(workspaces, &text_member(agent, "workspace_id"));
    let tab = label_for(tabs, &text_member(agent, "tab_id"));
    let reported = text_member(agent, "agent_status");
    let status = if chars_eq(&reported, &chars_of("working")) || chars_eq(&reported, &chars_of("blocked"))
        || chars_eq(&reported, &chars_of("idle")) || chars_eq(&reported, &chars_of("done")) {
        reported
    } else {
        chars_of("unknown")
    };
    let display = text_member(agent, "display_agent");
    let program = text_member(agent, "agent");
    let kind = if display.len() > 0 {
        display
    } else if program.len() > 0 {
        program
    } else {
        chars_of("agent")
    };
    let mut name = if workspace.len() == 0 {
        copy_chars(&pane_id)
    } else {
        copy_chars(&workspace)
    };
    push_str(&mut name, " - ");
    push_chars(&mut name, &kind);
    let focused = match member(agent, "focused") {
        Some(JsonValue::Bool(b)) => *b,
        _ => false,
    };
    AgentView {
        pane_id: string_from_chars(&pane_id),
        workspace: string_from_chars(&workspace),
        tab: string_from_chars(&tab),
        name: string_from_chars(&name),
        kind: string_from_chars(&kind),
        status: string_from_chars(&status),
        focused,
    }
}


/// The values an agent is ordered by, computed once.
struct SortKey {
    rank: u8,
    workspace: Vec<char>,
    name: Vec<char>,
    pane_id: Vec<char>,
}

/// `key` holds the ordering values of `r`.
spec fn key_of(key: SortKey, r: AgentRecord) -> bool {
    &&& key.rank == status_rank(r.status)
    &&& key.workspace@ == lowercase_of(r.workspace)
    &&& key.name@ == lowercase_of(r.name)
    &&& key.pane_id@ == r.pane_id
}

/// Lexicographic comparison of character vectors.
fn chars_less(a: &Vec<char>, b: &Vec<char>) -> (r: bool)
    ensures
        r == chars_lt(a@, b@),
{
    let mut i: usize = 0;
    assert(a@.skip(0) == a@ && b@.skip(0) == b@);
    while i < a.len() && i < b.len()
        invariant
            i <= a@.len(),
            i <= b@.len(),
            chars_lt(a@, b@) == chars_lt(a@.skip(i as int), b@.skip(i as int)),
        decreases a@.len() - i,
    {
        assert(a@.skip(i as int)[0] == a@[i as int] && b@.skip(i as int)[0] == b@[i as int]);
        if a[i] != b[i] {
            return a[i] < b[i];
        }
        assert(a@.skip(i as int).drop_first() == a@.skip(i + 1));
        assert(b@.skip(i as int).drop_first() == b@.skip(i + 1));
        i = i + 1;
    }
    i == a.len() && i < b.len()
}

fn sort_key(agent: &AgentView) -> (k: SortKey)
    ensures
        key_of(k, agent.record()),
{
    SortKey {
        rank: status_priority(agent.status.as_str()),
        workspace: chars_of(lowercase(agent.workspace.as_str()).as_str()),
        name: chars_of(lowercase(agent.name.as_str()).as_str()),
        pane_id: chars_of(agent.pane_id.as_str()),
    }
}

/// No sequence orders before itself.
pub(crate) proof fn lemma_chars_lt_irreflexive(a: Seq<char>)
    ensures
        !chars_lt(a, a),
    decreases a.len(),
{
    if a.len() > 0 {
        lemma_chars_lt_irreflexive(a.drop_first());
    }
}

/// Whether `a` orders strictly before `b`.
fn key_less(a: &SortKey, b: &SortKey) -> (r: bool)
    ensures
        forall|ra: AgentRecord, rb: AgentRecord|
            key_of(*a, ra) && key_of(*b, rb) ==> r == record_lt(ra, rb),
{
    proof {
        lemma_chars_lt_irreflexive(a.workspace@);
        lemma_chars_lt_irreflexive(a.name@);
    }
    if a.rank != b.rank {
        return a.rank < b.rank;
    }
    if !chars_eq(&a.workspace, &b.workspace) {
        return chars_less(&a.workspace, &b.workspace);
    }
    if !chars_eq(&a.name, &b.name) {
        return chars_less(&a.name, &b.name);
    }
    chars_less(&a.pane_id, &b.pane_id)
}

/// Inserting at the first position whose element orders after `x` gives `insert_sorted`.
proof fn lemma_insert_at(sorted: Seq<AgentRecord>, x: AgentRecord, p: int)
    requires
        0 <= p <= sorted.len(),
        forall|q: int| 0 <= q < p ==> !record_lt(x, #[trigger] sorted[q]),
        p < sorted.len() ==> record_lt(x, sorted[p]),
    ensures
        insert_sorted(sorted, x) == sorted.insert(p, x),
    decreases p,
{
    if p == 0 {
        if sorted.len() == 0 {
            assert(sorted.insert(0, x) =~= seq![x]);
        } else {
            assert(sorted.insert(0, x) =~= seq![x] + sorted);
        }
    } else {
        let rest = sorted.drop_first();
        assert forall|q: int| 0 <= q < p - 1 implies !record_lt(x, #[trigger] rest[q]) by {
            assert(rest[q] == sorted[q + 1]);
        }
        if p - 1 < rest.len() {
            assert(rest[p - 1] == sorted[p]);
        }
        lemma_insert_at(rest, x, p - 1);
        assert(!record_lt(x, sorted[0]));
        assert(sorted.insert(p, x) =~= seq![sorted[0]] + rest.insert(p - 1, x));
    }
}

/// Inserts `agent` into the sorted list, keeping the keys beside their agents.
fn insert_agent(sorted: &mut Vec<AgentView>, keys: &mut Vec<SortKey>, agent: AgentView)
    requires
        old(keys)@.len() == old(sorted)@.len(),
        forall|i: int| 0 <= i < old(sorted)@.len() ==> key_of(#[trigger] old(keys)@[i], old(sorted)@[i].record()),
    ensures
        final(keys)@.len() == final(sorted)@.len(),
        forall|i: int| 0 <= i < final(sorted)@.len() ==> key_of(#[trigger] final(keys)@[i], final(sorted)@[i].record()),
        records_of(final(sorted)@) == insert_sorted(records_of(old(sorted)@), agent.record()),
{
    let key = sort_key(&agent);
    let len = sorted.len();
    let mut p: usize = 0;
    while p < len && !key_less(&key, &keys[p])
        invariant
            len == sorted@.len(),
            len == keys@.len(),
            p <= len,
            key_of(key, agent.record()),
            forall|i: int| 0 <= i < sorted@.len() ==> key_of(#[trigger] keys@[i], sorted@[i].record()),
            forall|q: int| 0 <= q < p ==> !record_lt(agent.record(), #[trigger] records_of(sorted@)[q]),
        decreases len - p,
    {
        p = p + 1;
    }
    proof {
        if p < len {
            assert(key_of(keys@[p as int], sorted@[p as int].record()));
        }
        lemma_insert_at(records_of(sorted@), agent.record(), p as int);
    }
    let ghost before = sorted@;
    let ghost before_keys = keys@;
    let ghost rec = agent.record();
    sorted.insert(p, agent);
    keys.insert(p, key);
    assert(records_of(sorted@) =~= records_of(before).insert(p as int, rec));
    assert forall|i: int| 0 <= i < sorted@.len() implies key_of(#[trigger] keys@[i], sorted@[i].record()) by {
        if i < p {
            assert(keys@[i] == before_keys[i] && sorted@[i] == before[i]);
        } else if i > p {
            assert(keys@[i] == before_keys[i - 1] && sorted@[i] == before[i - 1]);
        }
    }
}

/// The agents of a session snapshot, sorted for display: by status (blocked,
/// working, idle, done, then the rest), then by workspace and name compared in
/// lowercase, then by pane identifier; agents without a pane identifier are left out.
pub fn parse_snapshot(payload: &JsonValue) -> (res: Result<Vec<AgentView>, HerdrError>)
    ensures
        match snapshot_records(*payload) {
            None => res matches Err(HerdrError::Snapshot),
            Some(records) => res matches Ok(v) && records_of(v@) == records,
        },
{
    let snapshot = match member(payload, "result") {
        Some(result) => match member(result, "snapshot") {
            Some(snapshot) => snapshot,
            None => return Err(HerdrError::Snapshot),
        },
        None => return Err(HerdrError::Snapshot),
    };
    match snapshot {
        JsonValue::Object(_) => {},
        _ => return Err(HerdrError::Snapshot),
    }
    let workspaces = labels_by_id(snapshot, "workspaces", "workspace_id");
    let tabs = labels_by_id(snapshot, "tabs", "tab_id");
    let agents = match member(snapshot, "agents") {
        Some(JsonValue::Array(agents)) => agents,
        _ => return Err(HerdrError::Snapshot),
    };
    let ghost ws = pairs_view(workspaces@);
    let ghost ts = pairs_view(tabs@);
    let mut sorted: Vec<AgentView> = Vec::new();
    let mut keys: Vec<SortKey> = Vec::new();
    assert(records_of(sorted@) =~= sort_records(agent_records(agents@.take(0), ws, ts)));
    for i in 0..agents.len()
        invariant
            ws == pairs_view(workspaces@),
            ts == pairs_view(tabs@),
            keys@.len() == sorted@.len(),
            forall|k: int| 0 <= k < sorted@.len() ==> key_of(#[trigger] keys@[k], sorted@[k].record()),
            records_of(sorted@) == sort_records(agent_records(agents@.take(i as int), ws, ts)),
    {
        let ghost prefix = agents@.take(i as int);
        assert(agents@.take(i + 1).drop_last() == prefix);
        assert(agents@.take(i + 1).last() == agents@[i as int]);
        let pane_id = text_member(&agents[i], "pane_id");
        if pane_id.len() > 0 {
            let agent = build_agent(&agents[i], &workspaces, &tabs);
            let ghost rest = agent_records(prefix, ws, ts);
            assert(rest.push(agent.record()).drop_last() == rest);
            insert_agent(&mut sorted, &mut keys, agent);
        }
    }
    assert(agents@.take(agents@.len() as int) == agents@);
    Ok(sorted)
}


/// Values that are the same JSON have the same members, the same again.
proof fn lemma_same_member(x: JsonValue, v: JsonValue, key: Seq<char>, depth: nat)
    requires
        json_same(x, v, depth),
    ensures
        match member_of(v, key) {
            None => member_of(x, key) is None,
            Some(mv) => member_of(x, key) matches Some(mx) && json_same(mx, mv, (depth - 1) as nat),
        },
{
    if let JsonValue::Object(members) = v {
        let _ = member_value(members@, key);
    }
}

/// Values that are the same JSON have the same trimmed text under every name.
proof fn lemma_same_text(x: JsonValue, v: JsonValue, key: Seq<char>, depth: nat)
    requires
        json_same(x, v, depth),
    ensures
        text_of(member_of(x, key)) == text_of(member_of(v, key)),
{
    lemma_same_member(x, v, key, depth);
}

/// Agent entries that are the same JSON give the same record.
proof fn lemma_same_agent(
    x: JsonValue,
    v: JsonValue,
    workspaces: Seq<(Seq<char>, Seq<char>)>,
    tabs: Seq<(Seq<char>, Seq<char>)>,
    depth: nat,
)
    requires
        json_same(x, v, depth),
    ensures
        text_of(member_of(x, "pane_id"@)) == text_of(member_of(v, "pane_id"@)),
        agent_record(x, workspaces, tabs) == agent_record(v, workspaces, tabs),
{
    lemma_same_text(x, v, "pane_id"@, depth);
    lemma_same_text(x, v, "workspace_id"@, depth);
    lemma_same_text(x, v, "tab_id"@, depth);
    lemma_same_text(x, v, "agent_status"@, depth);
    lemma_same_text(x, v, "display_agent"@, depth);
    lemma_same_text(x, v, "agent"@, depth);
    lemma_same_member(x, v, "focused"@, depth);
}

/// Lists whose items are the same JSON give the same label pairs.
proof fn lemma_same_label_pairs(xs: Seq<JsonValue>, vs: Seq<JsonValue>, id_key: Seq<char>, depth: nat)
    requires
        xs.len() == vs.len(),
        forall|i: int| 0 <= i < vs.len() ==> json_same(#[trigger] xs[i], vs[i], depth),
    ensures
        label_pairs(xs, id_key) == label_pairs(vs, id_key),
    decreases vs.len(),
{
    if vs.len() > 0 {
        lemma_same_label_pairs(xs.drop_last(), vs.drop_last(), id_key, depth);
        assert(json_same(xs[xs.len() - 1], vs[vs.len() - 1], depth));
        lemma_same_text(xs.last(), vs.last(), id_key, depth);
        lemma_same_text(xs.last(), vs.last(), "label"@, depth);
    }
}

/// Values that are the same JSON give the same label pairs under every name.
proof fn lemma_same_labels(x: JsonValue, v: JsonValue, list_key: Seq<char>, id_key: Seq<char>, depth: nat)
    requires
        json_same(x, v, depth),
    ensures
        labels_of(member_of(x, list_key), id_key) == labels_of(member_of(v, list_key), id_key),
{
    lemma_same_member(x, v, list_key, depth);
    if let Some(JsonValue::Array(items)) = member_of(v, list_key) {
        let xs = member_of(x, list_key)->0->Array_0@;
        lemma_same_label_pairs(xs, items@, id_key, (depth - 2) as nat);
    }
}

/// Agent lists whose entries are the same JSON give the same records.
proof fn lemma_same_agents(
    xs: Seq<JsonValue>,
    vs: Seq<JsonValue>,
    workspaces: Seq<(Seq<char>, Seq<char>)>,
    tabs: Seq<(Seq<char>, Seq<char>)>,
    depth: nat,
)
    requires
        xs.len() == vs.len(),
        forall|i: int| 0 <= i < vs.len() ==> json_same(#[trigger] xs[i], vs[i], depth),
    ensures
        agent_records(xs, workspaces, tabs) == agent_records(vs, workspaces, tabs),
    decreases vs.len(),
{
    if vs.len() > 0 {
        lemma_same_agents(xs.drop_last(), vs.drop_last(), workspaces, tabs, depth);
        assert(json_same(xs[xs.len() - 1], vs[vs.len() - 1], depth));
        lemma_same_agent(xs.last(), vs.last(), workspaces, tabs, depth);
    }
}

/// Payloads that are the same JSON hold the same agents.
proof fn lemma_same_snapshot(x: JsonValue, v: JsonValue, depth: nat)
    requires
        json_same(x, v, depth),
    ensures
        snapshot_records(x) == snapshot_records(v),
{
    lemma_same_member(x, v, "result"@, depth);
    if let Some(vr) = member_of(v, "result"@) {
        let xr = member_of(x, "result"@)->0;
        lemma_same_member(xr, vr, "snapshot"@, (depth - 1) as nat);
        if let Some(vs) = member_of(vr, "snapshot"@) {
            let xs = member_of(xr, "snapshot"@)->0;
            let d = (depth - 2) as nat;
            assert(xs is Object <==> vs is Object);
            lemma_same_member(xs, vs, "agents"@, d);
            lemma_same_labels(xs, vs, "workspaces"@, "workspace_id"@, d);
            lemma_same_labels(xs, vs, "tabs"@, "tab_id"@, d);
            if let Some(JsonValue::Array(agents)) = member_of(vs, "agents"@) {
                let xa = member_of(xs, "agents"@)->0->Array_0@;
                lemma_same_agents(
                    xa,
                    agents@,
                    labels_of(member_of(vs, "workspaces"@), "workspace_id"@),
                    labels_of(member_of(vs, "tabs"@), "tab_id"@),
                    (d - 2) as nat,
                );
            }
        }
    }
}

/// The agents in the output of `herdr api snapshot`: `Json` when `serde_json` refuses
/// the output, `Snapshot` when it holds no session snapshot, else as `parse_snapshot`.
/// Where the output is the compact text of a value (see `canonical_json`), the
/// agents are those of that very value: an entry written `"focused":true` gives
/// a focused agent.
pub fn snapshot_agents(output: &[u8]) -> (res: Result<Vec<AgentView>, HerdrError>)
    ensures
        match json_document(output@) {
            None => res matches Err(HerdrError::Json(_)),
            Some(payload) => match snapshot_records(payload) {
                None => res matches Err(HerdrError::Snapshot),
                Some(records) => res matches Ok(v) && records_of(v@) == records,
            },
        },
        forall|v: JsonValue|
            #[trigger] canonical_json(v, 100) && json_text(v, 100) == output@ ==> match snapshot_records(v) {
                None => res matches Err(HerdrError::Snapshot),
                Some(records) => res matches Ok(a) && records_of(a@) == records,
            },
{
    match decode_json(output) {
        Ok(payload) => {
            let res = parse_snapshot(&payload);
            proof {
                assert forall|v: JsonValue|
                    #[trigger] canonical_json(v, 100) && json_text(v, 100) == output@ implies match snapshot_records(v) {
                        None => res matches Err(HerdrError::Snapshot),
                        Some(records) => res matches Ok(a) && records_of(a@) == records,
                    } by {
                    lemma_same_snapshot(payload, v, 100);
                }
            }
            res
        },
        Err(e) => Err(HerdrError::Json(e)),
    }
}

}
