//! What holds of every input: quoting that the shell reads back, hosts that are
//! never options, and the order and shape of the agents of any snapshot.
use vstd::prelude::*;

use crate::config::ConnectionConfig;
use crate::json::JsonValue;
use crate::shell::{escape_quotes, is_plain_char, is_plain_word, shell_quoted};
use crate::snapshot::{
    text_of, agent_records, chars_lt, insert_sorted, labels_of, lemma_chars_lt_irreflexive, member_of,
    record_lt, snapshot_records, sort_records, AgentRecord,
};
use crate::text::{is_whitespace_char, lowercase_of, trim, trim_end, trim_start};

verus! {

/// No agent of `s` orders strictly before one that precedes it.
pub open spec fn in_display_order(s: Seq<AgentRecord>) -> bool {
    forall|i: int, j: int| 0 <= i < j < s.len() ==> !record_lt(#[trigger] s[j], #[trigger] s[i])
}

proof fn lemma_chars_lt_asymmetric(a: Seq<char>, b: Seq<char>)
    ensures
        chars_lt(a, b) ==> !chars_lt(b, a),
    decreases a.len(),
{
    if a.len() > 0 && b.len() > 0 && a[0] == b[0] {
        lemma_chars_lt_asymmetric(a.drop_first(), b.drop_first());
    }
}

proof fn lemma_chars_lt_transitive(a: Seq<char>, b: Seq<char>, c: Seq<char>)
    ensures
        chars_lt(a, b) && chars_lt(b, c) ==> chars_lt(a, c),
    decreases a.len(),
{
    if a.len() > 0 && b.len() > 0 && c.len() > 0 {
        if a[0] == b[0] && b[0] == c[0] {
            lemma_chars_lt_transitive(a.drop_first(), b.drop_first(), c.drop_first());
        }
    }
}

proof fn lemma_record_lt_order(a: AgentRecord, b: AgentRecord, c: AgentRecord)
    ensures
        !record_lt(a, a),
        record_lt(a, b) ==> !record_lt(b, a),
        record_lt(a, b) && record_lt(b, c) ==> record_lt(a, c),
{
    let (wa, wb, wc) = (
        crate::text::lowercase_of(a.workspace),
        crate::text::lowercase_of(b.workspace),
        crate::text::lowercase_of(c.workspace),
    );
    let (na, nb, nc) = (
        crate::text::lowercase_of(a.name),
        crate::text::lowercase_of(b.name),
        crate::text::lowercase_of(c.name),
    );
    lemma_chars_lt_irreflexive(wa);
    lemma_chars_lt_irreflexive(na);
    lemma_chars_lt_irreflexive(a.pane_id);
    lemma_chars_lt_irreflexive(wb);
    lemma_chars_lt_irreflexive(nb);
    lemma_chars_lt_irreflexive(b.pane_id);
    lemma_chars_lt_asymmetric(wa, wb);
    lemma_chars_lt_asymmetric(na, nb);
    lemma_chars_lt_asymmetric(a.pane_id, b.pane_id);
    lemma_chars_lt_transitive(wa, wb, wc);
    lemma_chars_lt_transitive(na, nb, nc);
    lemma_chars_lt_transitive(a.pane_id, b.pane_id, c.pane_id);
}

/// The first position of `sorted` whose element orders after `x`.
spec fn insertion_point(sorted: Seq<AgentRecord>, x: AgentRecord) -> int
    decreases sorted.len(),
{
    if sorted.len() == 0 {
        0
    } else if record_lt(x, sorted[0]) {
        0
    } else {
        1 + insertion_point(sorted.drop_first(), x)
    }
}

proof fn lemma_insertion_point(sorted: Seq<AgentRecord>, x: AgentRecord)
    ensures
        0 <= insertion_point(sorted, x) <= sorted.len(),
        forall|q: int| 0 <= q < insertion_point(sorted, x) ==> !record_lt(x, #[trigger] sorted[q]),
        insertion_point(sorted, x) < sorted.len() ==> record_lt(x, sorted[insertion_point(sorted, x)]),
        insert_sorted(sorted, x) == sorted.insert(insertion_point(sorted, x), x),
    decreases sorted.len(),
{
    if sorted.len() == 0 {
        assert(sorted.insert(0, x) =~= seq![x]);
    } else if record_lt(x, sorted[0]) {
        assert(sorted.insert(0, x) =~= seq![x] + sorted);
    } else {
        let rest = sorted.drop_first();
        lemma_insertion_point(rest, x);
        let p = insertion_point(sorted, x);
        assert forall|q: int| 0 <= q < p implies !record_lt(x, #[trigger] sorted[q]) by {
            if q > 0 {
                assert(sorted[q] == rest[q - 1]);
            }
        }
        if p < sorted.len() {
            assert(sorted[p] == rest[p - 1]);
        }
        assert(sorted.insert(p, x) =~= seq![sorted[0]] + rest.insert(p - 1, x));
    }
}

proof fn lemma_insert_sorted(sorted: Seq<AgentRecord>, x: AgentRecord)
    requires
        in_display_order(sorted),
    ensures
        in_display_order(insert_sorted(sorted, x)),
        insert_sorted(sorted, x).to_multiset() == sorted.to_multiset().insert(x),
{
    lemma_insertion_point(sorted, x);
    let p = insertion_point(sorted, x);
    let r = sorted.insert(p, x);
    assert forall|i: int, j: int| 0 <= i < j < r.len() implies !record_lt(#[trigger] r[j], #[trigger] r[i]) by {
        if j < p {
            assert(r[i] == sorted[i] && r[j] == sorted[j]);
        } else if j == p {
            assert(r[i] == sorted[i] && r[j] == x);
            lemma_record_lt_order(x, sorted[i], x);
        } else if i < p {
            assert(r[i] == sorted[i] && r[j] == sorted[j - 1]);
        } else if i == p {
            assert(r[i] == x && r[j] == sorted[j - 1]);
            assert(record_lt(x, sorted[p]));
            if j - 1 > p {
                assert(!record_lt(sorted[j - 1], sorted[p]));
            }
            lemma_record_lt_order(x, sorted[p], x);
            lemma_record_lt_order(sorted[j - 1], x, sorted[p]);
        } else {
            assert(r[i] == sorted[i - 1] && r[j] == sorted[j - 1]);
        }
    }
    broadcast use vstd::seq_lib::group_to_multiset_ensures;

    assert(r.remove(p) =~= sorted);
    assert(r[p] == x);
    assert(r.contains(x));
    assert(r.to_multiset().count(x) > 0);
    assert(sorted.to_multiset() == r.to_multiset().remove(x));
    assert(r.to_multiset() =~= sorted.to_multiset().insert(x));
}

/// Sorting puts the agents in display order and keeps each of them, as often as it occurs.
pub proof fn law_sort_orders_and_keeps(s: Seq<AgentRecord>)
    ensures
        in_display_order(sort_records(s)),
        sort_records(s).to_multiset() == s.to_multiset(),
    decreases s.len(),
{
    if s.len() > 0 {
        law_sort_orders_and_keeps(s.drop_last());
        lemma_insert_sorted(sort_records(s.drop_last()), s.last());
        assert(s.drop_last().push(s.last()) =~= s);
        vstd::seq_lib::to_multiset_build(s.drop_last(), s.last());
    } else {
        assert(sort_records(s) =~= s);
    }
}


/// An agent as the widget expects it: it has a pane, one of the five status
/// words, a non-empty kind, and a name made of its workspace (or, without one,
/// its pane) and its kind.
pub open spec fn well_formed_agent(r: AgentRecord) -> bool {
    &&& r.pane_id.len() > 0
    &&& r.status == "working"@ || r.status == "blocked"@ || r.status == "idle"@ || r.status
        == "done"@ || r.status == "unknown"@
    &&& r.kind.len() > 0
    &&& r.name == (if r.workspace.len() == 0 {
        r.pane_id
    } else {
        r.workspace
    }) + " - "@ + r.kind
}

proof fn lemma_records_well_formed(
    agents: Seq<JsonValue>,
    workspaces: Seq<(Seq<char>, Seq<char>)>,
    tabs: Seq<(Seq<char>, Seq<char>)>,
)
    ensures
        forall|i: int|
            0 <= i < agent_records(agents, workspaces, tabs).len() ==> well_formed_agent(
                #[trigger] agent_records(agents, workspaces, tabs)[i],
            ),
    decreases agents.len(),
{
    reveal_strlit("agent");
    if agents.len() > 0 {
        lemma_records_well_formed(agents.drop_last(), workspaces, tabs);
        let rest = agent_records(agents.drop_last(), workspaces, tabs);
        let all = agent_records(agents, workspaces, tabs);
        assert forall|i: int| 0 <= i < all.len() implies well_formed_agent(#[trigger] all[i]) by {
            if i < rest.len() {
                assert(all[i] == rest[i]);
            }
        }
    }
}

/// Every snapshot that is read gives its agents in display order, each of them
/// well formed.
pub proof fn law_snapshot_agents(payload: JsonValue)
    ensures
        snapshot_records(payload) matches Some(records) ==> {
            &&& in_display_order(records)
            &&& forall|i: int| 0 <= i < records.len() ==> well_formed_agent(#[trigger] records[i])
        },
{
    broadcast use vstd::seq_lib::group_to_multiset_ensures;

    if let Some(records) = snapshot_records(payload) {
        let snapshot = member_of(member_of(payload, "result"@)->0, "snapshot"@)->0;
        let agents = member_of(snapshot, "agents"@)->0->Array_0@;
        let unsorted = agent_records(
            agents,
            labels_of(member_of(snapshot, "workspaces"@), "workspace_id"@),
            labels_of(member_of(snapshot, "tabs"@), "tab_id"@),
        );
        assert(records == sort_records(unsorted));
        law_sort_orders_and_keeps(unsorted);
        lemma_records_well_formed(
            agents,
            labels_of(member_of(snapshot, "workspaces"@), "workspace_id"@),
            labels_of(member_of(snapshot, "tabs"@), "tab_id"@),
        );
        assert forall|i: int| 0 <= i < records.len() implies well_formed_agent(#[trigger] records[i]) by {
            assert(records.contains(records[i]));
            assert(records.to_multiset().count(records[i]) > 0);
            assert(unsorted.contains(records[i]));
        }
    }
}


/// `c` put in front of a text that was read, if any.
pub open spec fn prepend(c: char, read: Option<Seq<char>>) -> Option<Seq<char>> {
    match read {
        Some(t) => Some(seq![c] + t),
        None => None,
    }
}

/// How a POSIX shell reads one word made of plain characters, single-quoted runs,
/// and double-quoted runs without `$`, `` ` `` or `\`: the text the word stands
/// for, or `None` for anything else. `mode` is 0 outside quotes, 1 inside single
/// quotes and 2 inside double quotes.
pub open spec fn shell_read(s: Seq<char>, mode: u8) -> Option<Seq<char>>
    decreases s.len(),
{
    if s.len() == 0 {
        if mode == 0 {
            Some(Seq::empty())
        } else {
            None
        }
    } else {
        let c = s[0];
        let rest = s.drop_first();
        if mode == 1 {
            if c == '\'' {
                shell_read(rest, 0)
            } else {
                prepend(c, shell_read(rest, 1))
            }
        } else if mode == 2 {
            if c == '"' {
                shell_read(rest, 0)
            } else if c == '$' || c == '`' || c == '\\' {
                None
            } else {
                prepend(c, shell_read(rest, 2))
            }
        } else if c == '\'' {
            shell_read(rest, 1)
        } else if c == '"' {
            shell_read(rest, 2)
        } else if is_plain_char(c) {
            prepend(c, shell_read(rest, 0))
        } else {
            None
        }
    }
}

proof fn lemma_read_plain(s: Seq<char>)
    requires
        forall|i: int| 0 <= i < s.len() ==> is_plain_char(#[trigger] s[i]),
    ensures
        shell_read(s, 0) == Some(s),
    decreases s.len(),
{
    if s.len() > 0 {
        assert(is_plain_char(s[0]));
        let rest = s.drop_first();
        assert forall|i: int| 0 <= i < rest.len() implies is_plain_char(#[trigger] rest[i]) by {
            assert(rest[i] == s[i + 1]);
        }
        lemma_read_plain(rest);
        assert(seq![s[0]] + rest =~= s);
    }
}

proof fn lemma_escape_append(a: Seq<char>, b: Seq<char>)
    ensures
        escape_quotes(a + b) == escape_quotes(a) + escape_quotes(b),
    decreases b.len(),
{
    if b.len() == 0 {
        assert(a + b =~= a);
        assert(escape_quotes(a) + escape_quotes(b) =~= escape_quotes(a));
    } else {
        lemma_escape_append(a, b.drop_last());
        assert((a + b).drop_last() =~= a + b.drop_last());
        assert((a + b).last() == b.last());
        if b.last() == '\'' {
            assert(escape_quotes(a) + escape_quotes(b) =~= escape_quotes(a) + escape_quotes(b.drop_last())
                + seq!['\'', '"', '\'', '"', '\'']);
        } else {
            assert(escape_quotes(a) + escape_quotes(b) =~= (escape_quotes(a) + escape_quotes(b.drop_last())).push(
                b.last(),
            ));
        }
    }
}

proof fn lemma_read_escaped(s: Seq<char>)
    ensures
        shell_read(escape_quotes(s) + seq!['\''], 1) == Some(s),
    decreases s.len(),
{
    let close = seq!['\''];
    if s.len() == 0 {
        assert(escape_quotes(s) + close =~= close);
        assert(close.drop_first() =~= Seq::<char>::empty());
        assert(shell_read(close, 1) == shell_read(Seq::<char>::empty(), 0));
        assert(s =~= Seq::<char>::empty());
    } else {
        let c = s[0];
        let r = s.drop_first();
        lemma_read_escaped(r);
        assert(seq![c] + r =~= s);
        lemma_escape_append(seq![c], r);
        assert(seq![c].drop_last() =~= Seq::<char>::empty());
        assert(seq![c].last() == c);
        assert(escape_quotes(Seq::<char>::empty()) == Seq::<char>::empty());
        let tail = escape_quotes(r) + close;
        if c == '\'' {
            let q = seq!['\'', '"', '\'', '"', '\''];
            assert(Seq::<char>::empty() + q =~= q);
            assert(escape_quotes(seq![c]) =~= q);
            let input = q + tail;
            assert(escape_quotes(s) + close =~= input);
            assert(input.drop_first() =~= seq!['"', '\'', '"', '\''] + tail);
            assert((seq!['"', '\'', '"', '\''] + tail).drop_first() =~= seq!['\'', '"', '\''] + tail);
            assert((seq!['\'', '"', '\''] + tail).drop_first() =~= seq!['"', '\''] + tail);
            assert((seq!['"', '\''] + tail).drop_first() =~= seq!['\''] + tail);
            assert((seq!['\''] + tail).drop_first() =~= tail);
            assert(shell_read(seq!['\''] + tail, 0) == Some(r));
            assert(shell_read(seq!['"', '\''] + tail, 2) == Some(r));
            assert(shell_read(seq!['\'', '"', '\''] + tail, 2) == Some(seq!['\''] + r));
            assert(shell_read(seq!['"', '\'', '"', '\''] + tail, 0) == Some(seq!['\''] + r));
            assert(shell_read(input, 1) == Some(seq!['\''] + r));
        } else {
            assert(Seq::<char>::empty().push(c) =~= seq![c]);
            assert(escape_quotes(seq![c]) =~= seq![c]);
            assert(escape_quotes(s) + close =~= seq![c] + tail);
            assert((seq![c] + tail).drop_first() =~= tail);
            assert(shell_read(seq![c] + tail, 1) == Some(seq![c] + r));
        }
    }
}

/// Quoting is faithful: a POSIX shell reads a quoted word back as exactly the
/// original text, whatever characters it holds.
pub proof fn law_shell_quote_reads_back(s: Seq<char>)
    ensures
        shell_read(shell_quoted(s), 0) == Some(s),
{
    if is_plain_word(s) {
        lemma_read_plain(s);
    } else {
        lemma_read_escaped(s);
        let body = escape_quotes(s) + seq!['\''];
        assert(shell_quoted(s) =~= seq!['\''] + body);
        assert((seq!['\''] + body).drop_first() =~= body);
    }
}

/// A host that passes validation is never handed to `ssh` as an option: it does
/// not start with `-`.
pub proof fn law_valid_host_is_not_an_option(config: ConnectionConfig)
    requires
        config.is_valid(),
        config.spec_uses_ssh(),
    ensures
        config.ssh_target@.len() > 0,
        config.ssh_target@[0] != '-',
{
    lemma_trim_first(config.ssh_target@);
}

/// The first character of a text is whitespace, or it is the first of the trimmed text.
proof fn lemma_trim_start_first(s: Seq<char>)
    requires
        trim_start(s).len() > 0,
    ensures
        s.len() > 0,
        is_whitespace_char(s[0]) || s[0] == trim_start(s)[0],
    decreases s.len(),
{
    if s.len() > 0 && is_whitespace_char(s[0]) {
        lemma_trim_start_first(s.drop_first());
    }
}

proof fn lemma_trim_end_first(s: Seq<char>)
    requires
        trim_end(s).len() > 0,
    ensures
        s.len() > 0,
        trim_end(s)[0] == s[0],
    decreases s.len(),
{
    if s.len() > 0 && is_whitespace_char(s.last()) {
        lemma_trim_end_first(s.drop_last());
    }
}

proof fn lemma_trim_first(s: Seq<char>)
    requires
        trim(s).len() > 0,
    ensures
        s.len() > 0,
        is_whitespace_char(s[0]) || s[0] == trim(s)[0],
{
    lemma_trim_end_first(trim_start(s));
    lemma_trim_start_first(s);
}


/// The trimmed pane identifier of an agent entry.
pub open spec fn pane_of(agent: JsonValue) -> Seq<char> {
    text_of(member_of(agent, "pane_id"@))
}

/// No two agent entries that have a pane identifier share it.
pub open spec fn distinct_pane_ids(agents: Seq<JsonValue>) -> bool {
    forall|i: int, j: int|
        0 <= i < j < agents.len() && pane_of(agents[i]).len() > 0 ==> pane_of(#[trigger] agents[i])
            != pane_of(#[trigger] agents[j])
}

/// No two positions of `s` hold agents with the same pane identifier.
pub open spec fn distinct_record_panes(s: Seq<AgentRecord>) -> bool {
    forall|i: int, j: int| 0 <= i < s.len() && 0 <= j < s.len() && i != j ==> (#[trigger] s[i]).pane_id
        != (#[trigger] s[j]).pane_id
}

/// The `result.snapshot` object of a payload.
pub open spec fn snapshot_object(payload: JsonValue) -> Option<JsonValue> {
    match member_of(payload, "result"@) {
        Some(result) => match member_of(result, "snapshot"@) {
            Some(snapshot) => if snapshot is Object {
                Some(snapshot)
            } else {
                None
            },
            None => None,
        },
        None => None,
    }
}

/// The `agents` array of a payload's snapshot.
pub open spec fn agent_entries(payload: JsonValue) -> Option<Seq<JsonValue>> {
    match snapshot_object(payload) {
        Some(snapshot) => match member_of(snapshot, "agents"@) {
            Some(JsonValue::Array(agents)) => Some(agents@),
            _ => None,
        },
        None => None,
    }
}

proof fn lemma_chars_lt_total(a: Seq<char>, b: Seq<char>)
    requires
        a != b,
    ensures
        chars_lt(a, b) || chars_lt(b, a),
    decreases a.len(),
{
    if a.len() == 0 && b.len() == 0 {
        assert(a =~= b);
    } else if a.len() > 0 && b.len() > 0 {
        if a[0] == b[0] {
            if a.drop_first() =~= b.drop_first() {
                assert(a =~= seq![a[0]] + a.drop_first());
                assert(b =~= seq![b[0]] + b.drop_first());
                assert(a == b);
            } else {
                lemma_chars_lt_total(a.drop_first(), b.drop_first());
            }
        }
    }
}

proof fn lemma_record_lt_total(a: AgentRecord, b: AgentRecord)
    requires
        a.pane_id != b.pane_id,
    ensures
        record_lt(a, b) || record_lt(b, a),
{
    let (wa, wb) = (crate::text::lowercase_of(a.workspace), crate::text::lowercase_of(b.workspace));
    let (na, nb) = (crate::text::lowercase_of(a.name), crate::text::lowercase_of(b.name));
    if wa != wb {
        lemma_chars_lt_total(wa, wb);
    }
    if na != nb {
        lemma_chars_lt_total(na, nb);
    }
    lemma_chars_lt_total(a.pane_id, b.pane_id);
}

proof fn lemma_agent_records_append(
    a: Seq<JsonValue>,
    b: Seq<JsonValue>,
    workspaces: Seq<(Seq<char>, Seq<char>)>,
    tabs: Seq<(Seq<char>, Seq<char>)>,
)
    ensures
        agent_records(a + b, workspaces, tabs) == agent_records(a, workspaces, tabs) + agent_records(
            b,
            workspaces,
            tabs,
        ),
    decreases b.len(),
{
    if b.len() == 0 {
        assert(a + b =~= a);
        assert(agent_records(a, workspaces, tabs) + agent_records(b, workspaces, tabs) =~= agent_records(
            a,
            workspaces,
            tabs,
        ));
    } else {
        lemma_agent_records_append(a, b.drop_last(), workspaces, tabs);
        assert((a + b).drop_last() =~= a + b.drop_last());
        assert((a + b).last() == b.last());
        let ra = agent_records(a, workspaces, tabs);
        let rb = agent_records(b.drop_last(), workspaces, tabs);
        if pane_of(b.last()).len() > 0 {
            assert((ra + rb).push(crate::snapshot::agent_record(b.last(), workspaces, tabs)) =~= ra + rb.push(
                crate::snapshot::agent_record(b.last(), workspaces, tabs),
            ));
        }
    }
}

/// Reordering the agent entries reorders their records.
proof fn lemma_agent_records_permutation(
    a1: Seq<JsonValue>,
    a2: Seq<JsonValue>,
    workspaces: Seq<(Seq<char>, Seq<char>)>,
    tabs: Seq<(Seq<char>, Seq<char>)>,
)
    requires
        a1.to_multiset() == a2.to_multiset(),
    ensures
        agent_records(a1, workspaces, tabs).to_multiset() == agent_records(
            a2,
            workspaces,
            tabs,
        ).to_multiset(),
    decreases a1.len(),
{
    broadcast use vstd::seq_lib::group_to_multiset_ensures;
    broadcast use vstd::seq_lib::lemma_multiset_commutative;

    a1.to_multiset_ensures();
    a2.to_multiset_ensures();
    if a1.len() == 0 {
        assert(a2.len() == 0);
        assert(a1 =~= a2);
    } else {
        let x = a1.last();
        let rest1 = a1.drop_last();
        assert(rest1.push(x) =~= a1);
        assert(a1.contains(x));
        assert(a2.to_multiset().count(x) > 0);
        assert(a2.contains(x));
        let i = choose|i: int| 0 <= i < a2.len() && a2[i] == x;
        let rest2 = a2.remove(i);
        assert(rest2.to_multiset() == a2.to_multiset().remove(x));
        assert(rest1.to_multiset() =~= rest2.to_multiset());
        lemma_agent_records_permutation(rest1, rest2, workspaces, tabs);
        let single = seq![x];
        let front = a2.take(i);
        let back = a2.skip(i + 1);
        assert(a2 =~= front + single + back);
        assert(rest2 =~= front + back);
        assert(a1 =~= rest1 + single);
        lemma_agent_records_append(front, single, workspaces, tabs);
        lemma_agent_records_append(front + single, back, workspaces, tabs);
        lemma_agent_records_append(front, back, workspaces, tabs);
        lemma_agent_records_append(rest1, single, workspaces, tabs);
        let rf = agent_records(front, workspaces, tabs);
        let rs = agent_records(single, workspaces, tabs);
        let rk = agent_records(back, workspaces, tabs);
        assert(agent_records(a2, workspaces, tabs).to_multiset() =~= rf.to_multiset().add(
            rs.to_multiset(),
        ).add(rk.to_multiset()));
        assert(agent_records(rest2, workspaces, tabs).to_multiset() =~= rf.to_multiset().add(
            rk.to_multiset(),
        ));
        assert(agent_records(a1, workspaces, tabs).to_multiset() =~= agent_records(
            rest1,
            workspaces,
            tabs,
        ).to_multiset().add(rs.to_multiset()));
    }
}

/// Each record comes from an entry, and from a later entry than the records before it.
proof fn lemma_records_distinct(
    agents: Seq<JsonValue>,
    workspaces: Seq<(Seq<char>, Seq<char>)>,
    tabs: Seq<(Seq<char>, Seq<char>)>,
)
    requires
        distinct_pane_ids(agents),
    ensures
        distinct_record_panes(agent_records(agents, workspaces, tabs)),
        forall|k: int|
            0 <= k < agent_records(agents, workspaces, tabs).len() ==> exists|j: int|
                0 <= j < agents.len() && pane_of(agents[j]).len() > 0 && (#[trigger] agent_records(
                    agents,
                    workspaces,
                    tabs,
                )[k]).pane_id == pane_of(agents[j]),
    decreases agents.len(),
{
    if agents.len() > 0 {
        let rest = agents.drop_last();
        assert forall|i: int, j: int|
            0 <= i < j < rest.len() && pane_of(rest[i]).len() > 0 implies pane_of(#[trigger] rest[i])
            != pane_of(#[trigger] rest[j]) by {
            assert(rest[i] == agents[i] && rest[j] == agents[j]);
        }
        lemma_records_distinct(rest, workspaces, tabs);
        let prev = agent_records(rest, workspaces, tabs);
        let all = agent_records(agents, workspaces, tabs);
        let n = agents.len() - 1;
        assert forall|k: int| 0 <= k < all.len() implies exists|j: int|
            0 <= j < agents.len() && pane_of(agents[j]).len() > 0 && (#[trigger] all[k]).pane_id
                == pane_of(agents[j]) by {
            if k < prev.len() {
                assert(all[k] == prev[k]);
                let j = choose|j: int|
                    0 <= j < rest.len() && pane_of(rest[j]).len() > 0 && prev[k].pane_id == pane_of(rest[j]);
                assert(rest[j] == agents[j]);
            } else {
                assert(agents[n] == agents.last());
            }
        }
        assert forall|i: int, j: int| 0 <= i < all.len() && 0 <= j < all.len() && i != j implies (
        #[trigger] all[i]).pane_id != (#[trigger] all[j]).pane_id by {
            if i < prev.len() && j < prev.len() {
                assert(all[i] == prev[i] && all[j] == prev[j]);
            } else {
                let k = if i < prev.len() { i } else { j };
                assert(k < prev.len());
                assert(all[k] == prev[k]);
                let m = choose|m: int|
                    0 <= m < rest.len() && pane_of(rest[m]).len() > 0 && prev[k].pane_id == pane_of(rest[m]);
                assert(rest[m] == agents[m]);
                assert(pane_of(agents[m]) != pane_of(agents[n]));
            }
        }
    }
}

/// A reordering of agents with distinct panes keeps their panes distinct.
proof fn lemma_permutation_keeps_distinct(s: Seq<AgentRecord>, t: Seq<AgentRecord>)
    requires
        distinct_record_panes(s),
        s.to_multiset() == t.to_multiset(),
    ensures
        distinct_record_panes(t),
{
    broadcast use vstd::seq_lib::group_to_multiset_ensures;

    assert(s.no_duplicates());
    s.lemma_multiset_has_no_duplicates();
    t.lemma_multiset_has_no_duplicates_conv();
    assert forall|i: int, j: int| 0 <= i < t.len() && 0 <= j < t.len() && i != j implies (
    #[trigger] t[i]).pane_id != (#[trigger] t[j]).pane_id by {
        assert(t.contains(t[i]) && t.contains(t[j]));
        assert(t.to_multiset().count(t[i]) > 0 && t.to_multiset().count(t[j]) > 0);
        assert(s.contains(t[i]) && s.contains(t[j]));
        let p = choose|p: int| 0 <= p < s.len() && s[p] == t[i];
        let q = choose|q: int| 0 <= q < s.len() && s[q] == t[j];
        assert(t[i] != t[j]);
    }
}

/// Two lists in display order with the same agents, whose panes are distinct, are equal.
proof fn lemma_display_order_unique(s: Seq<AgentRecord>, t: Seq<AgentRecord>)
    requires
        in_display_order(s),
        in_display_order(t),
        distinct_record_panes(s),
        s.to_multiset() == t.to_multiset(),
    ensures
        s == t,
    decreases s.len(),
{
    broadcast use vstd::seq_lib::group_to_multiset_ensures;

    s.to_multiset_ensures();
    t.to_multiset_ensures();
    if s.len() == 0 {
        assert(t.len() == 0);
        assert(s =~= t);
    } else {
        let a = s[0];
        let b = t[0];
        assert(t.contains(b) && s.contains(a));
        assert(s.to_multiset().count(b) > 0 && t.to_multiset().count(a) > 0);
        assert(s.contains(b) && t.contains(a));
        if a != b {
            let k = choose|k: int| 0 <= k < s.len() && s[k] == b;
            let m = choose|m: int| 0 <= m < t.len() && t[m] == a;
            assert(k != 0 && m != 0);
            assert(!record_lt(s[k], s[0]));
            assert(!record_lt(t[m], t[0]));
            assert(a.pane_id != b.pane_id);
            lemma_record_lt_total(a, b);
        }
        let s1 = s.drop_first();
        let t1 = t.drop_first();
        assert(s.remove(0) =~= s1 && t.remove(0) =~= t1);
        assert(s1.to_multiset() == s.to_multiset().remove(a));
        assert(t1.to_multiset() == t.to_multiset().remove(b));
        assert forall|i: int, j: int| 0 <= i < j < s1.len() implies !record_lt(#[trigger] s1[j], #[trigger] s1[i]) by {
            assert(s1[i] == s[i + 1] && s1[j] == s[j + 1]);
        }
        assert forall|i: int, j: int| 0 <= i < j < t1.len() implies !record_lt(#[trigger] t1[j], #[trigger] t1[i]) by {
            assert(t1[i] == t[i + 1] && t1[j] == t[j + 1]);
        }
        assert forall|i: int, j: int| 0 <= i < s1.len() && 0 <= j < s1.len() && i != j implies (
        #[trigger] s1[i]).pane_id != (#[trigger] s1[j]).pane_id by {
            assert(s1[i] == s[i + 1] && s1[j] == s[j + 1]);
        }
        lemma_display_order_unique(s1, t1);
        assert(s =~= seq![a] + s1);
        assert(t =~= seq![b] + t1);
    }
}

/// The agents do not depend on the order in which Herdr lists them: two payloads
/// whose snapshots have the same workspaces and tabs, and the same agent entries
/// in any order with distinct pane identifiers, give the same agents.
pub proof fn law_agent_order_does_not_matter(p1: JsonValue, p2: JsonValue)
    requires
        snapshot_object(p1) is Some,
        snapshot_object(p2) is Some,
        member_of(snapshot_object(p1)->0, "workspaces"@) == member_of(snapshot_object(p2)->0, "workspaces"@),
        member_of(snapshot_object(p1)->0, "tabs"@) == member_of(snapshot_object(p2)->0, "tabs"@),
        agent_entries(p1) is Some,
        agent_entries(p2) is Some,
        agent_entries(p1)->0.to_multiset() == agent_entries(p2)->0.to_multiset(),
        distinct_pane_ids(agent_entries(p1)->0),
    ensures
        snapshot_records(p1) == snapshot_records(p2),
{
    let s1 = snapshot_object(p1)->0;
    let a1 = agent_entries(p1)->0;
    let a2 = agent_entries(p2)->0;
    let ws = labels_of(member_of(s1, "workspaces"@), "workspace_id"@);
    let ts = labels_of(member_of(s1, "tabs"@), "tab_id"@);
    let r1 = agent_records(a1, ws, ts);
    let r2 = agent_records(a2, ws, ts);
    lemma_agent_records_permutation(a1, a2, ws, ts);
    lemma_records_distinct(a1, ws, ts);
    law_sort_orders_and_keeps(r1);
    law_sort_orders_and_keeps(r2);
    lemma_permutation_keeps_distinct(r1, sort_records(r1));
    lemma_display_order_unique(sort_records(r1), sort_records(r2));
}


/// The place of a status in the widget: `blocked`, `working`, `idle`, `done`, then any other.
pub open spec fn status_order(status: Seq<char>) -> int {
    if status == "blocked"@ {
        0
    } else if status == "working"@ {
        1
    } else if status == "idle"@ {
        2
    } else if status == "done"@ {
        3
    } else {
        4
    }
}

/// `a` is lexicographically smaller than `b` by code point: after a common prefix
/// of length `k`, either `a` ends and `b` goes on, or `a` has the smaller character.
pub open spec fn lex_less(a: Seq<char>, b: Seq<char>) -> bool {
    exists|k: int|
        0 <= k <= a.len() && k <= b.len() && #[trigger] a.take(k) == b.take(k) && (
        (k == a.len() && k < b.len()) || (k < a.len() && k < b.len() && a[k] < b[k]))
}

/// `a` is shown before `b`: a more urgent status; else, with the same status, a
/// smaller lowercase workspace; else, with the same lowercase workspace, a smaller
/// lowercase name; else, with the same lowercase name too, a smaller pane identifier.
pub open spec fn shown_before(a: AgentRecord, b: AgentRecord) -> bool {
    let (wa, wb) = (lowercase_of(a.workspace), lowercase_of(b.workspace));
    let (na, nb) = (lowercase_of(a.name), lowercase_of(b.name));
    if status_order(a.status) != status_order(b.status) {
        status_order(a.status) < status_order(b.status)
    } else if wa != wb {
        lex_less(wa, wb)
    } else if na != nb {
        lex_less(na, nb)
    } else {
        lex_less(a.pane_id, b.pane_id)
    }
}

proof fn lemma_lex_less_at(a: Seq<char>, b: Seq<char>, k: int)
    requires
        0 <= k <= a.len(),
        k <= b.len(),
        a.take(k) == b.take(k),
        (k == a.len() && k < b.len()) || (k < a.len() && k < b.len() && a[k] < b[k]),
    ensures
        chars_lt(a, b),
    decreases k,
{
    if k > 0 {
        assert(a[0] == a.take(k)[0] && b[0] == b.take(k)[0]);
        assert(a.drop_first().take(k - 1) =~= a.take(k).drop_first());
        assert(b.drop_first().take(k - 1) =~= b.take(k).drop_first());
        if k < a.len() {
            assert(a.drop_first()[k - 1] == a[k] && b.drop_first()[k - 1] == b[k]);
        }
        lemma_lex_less_at(a.drop_first(), b.drop_first(), k - 1);
    }
}

proof fn lemma_lex_less(a: Seq<char>, b: Seq<char>)
    requires
        lex_less(a, b),
    ensures
        chars_lt(a, b),
{
    let k = choose|k: int|
        0 <= k <= a.len() && k <= b.len() && #[trigger] a.take(k) == b.take(k) && (
        (k == a.len() && k < b.len()) || (k < a.len() && k < b.len() && a[k] < b[k]));
    lemma_lex_less_at(a, b, k);
}

proof fn lemma_shown_before(a: AgentRecord, b: AgentRecord)
    requires
        shown_before(a, b),
    ensures
        record_lt(a, b),
{
    let (wa, wb) = (lowercase_of(a.workspace), lowercase_of(b.workspace));
    let (na, nb) = (lowercase_of(a.name), lowercase_of(b.name));
    if status_order(a.status) == status_order(b.status) {
        if wa != wb {
            lemma_lex_less(wa, wb);
        } else if na != nb {
            lemma_lex_less(na, nb);
        } else {
            lemma_lex_less(a.pane_id, b.pane_id);
        }
    }
}

/// The agents of a snapshot come in display order: whenever one agent is shown
/// before another (by status, then lowercase workspace, then lowercase name, then
/// pane identifier, each compared by code point), it stands before it. Two agents
/// with the same status and workspace come by name whatever their panes.
pub proof fn law_snapshot_display_order(payload: JsonValue)
    ensures
        snapshot_records(payload) matches Some(rs) ==> forall|i: int, j: int|
            0 <= i < rs.len() && 0 <= j < rs.len() && shown_before(#[trigger] rs[i], #[trigger] rs[j]) ==> i < j,
{
    law_snapshot_agents(payload);
    if let Some(rs) = snapshot_records(payload) {
        assert forall|i: int, j: int|
            0 <= i < rs.len() && 0 <= j < rs.len() && shown_before(#[trigger] rs[i], #[trigger] rs[j]) implies i < j by {
            lemma_shown_before(rs[i], rs[j]);
            lemma_record_lt_order(rs[i], rs[j], rs[i]);
        }
    }
}

}
