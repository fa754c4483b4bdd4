//! Sessions that the hub places on agents: choosing the agent, recording
//! what it started, listing, and removing.
use vstd::prelude::*;
use crate::agent::hub_link::{is_success, join_url, status_is_success};
use crate::agent::sessions::wants_gpu;
use crate::error::{ApiError, ErrorKind};
use crate::hub::auth::{check_api_key, presented_key};
use crate::hub::registry::{is_pick, no_eligible, NodeRegistry};
use crate::hub::types::{
    AgentStartSessionRequest, AgentStartSessionResponse, CreateSessionRequest, NodeState,
    SessionRecord, SessionRecordView,
};
use crate::keyed::KeyedVec;
use crate::order::{lists, order_by_time};
use crate::text::{copy_strings, strings_view};
use crate::time::Timestamp;

verus! {

/// The texts of an optional list of strings.
pub open spec fn opt_strings_view(v: Option<Vec<String>>) -> Option<Seq<Seq<char>>> {
    match v {
        Some(c) => Some(strings_view(c@)),
        None => None,
    }
}

/// The sessions placed by the hub, by session id.
pub struct SessionTable {
    pub records: KeyedVec<SessionRecord>,
}

impl SessionTable {
    /// The table is consistent: each record is stored under its own id.
    pub open spec fn wf(&self) -> bool {
        &&& self.records.wf()
        &&& forall|k: Seq<char>| #[trigger]
            self.records@.contains_key(k) ==> self.records@[k].session_id@ == k
    }

    /// The records by session id.
    pub open spec fn view(&self) -> Map<Seq<char>, SessionRecordView> {
        self.records@.map_values(|r: SessionRecord| r@)
    }

    /// A table with no session.
    pub fn new() -> (t: SessionTable)
        ensures
            t.wf(),
            t@ == Map::<Seq<char>, SessionRecordView>::empty(),
    {
        let t = SessionTable { records: KeyedVec::new() };
        assert(t@ =~= Map::<Seq<char>, SessionRecordView>::empty());
        t
    }
}

/// The table after recording `rec`.
pub open spec fn table_after_create(
    m: Map<Seq<char>, SessionRecordView>,
    rec: SessionRecordView,
) -> Map<Seq<char>, SessionRecordView> {
    m.insert(rec.session_id, rec)
}

/// The table after removing session `id`.
pub open spec fn table_after_delete(
    m: Map<Seq<char>, SessionRecordView>,
    id: Seq<char>,
) -> Map<Seq<char>, SessionRecordView> {
    m.remove(id)
}

/// A session about to be started on an agent: the chosen node, where to ask
/// it, and what to ask.
#[derive(Debug)]
pub struct CreatePlan {
    pub node: NodeState,
    pub start_url: String,
    pub body: AgentStartSessionRequest,
    pub requires_gpu: bool,
}

/// Begins placing a session: checks the key, chooses the node (see
/// `NodeRegistry::pick_node`), and says what to ask it; refused with
/// "no eligible nodes" when no node may take the session.
pub fn create_session(
    registry: &NodeRegistry,
    api_key_header: &Option<String>,
    expected_key: &str,
    req: &CreateSessionRequest,
) -> (r: Result<CreatePlan, ApiError>)
    requires
        registry.wf(),
    ensures
        presented_key(*api_key_header) != expected_key@ ==> (r matches Err(e) && e.kind
            == ErrorKind::Unauthorized && e.message@ == "invalid api key"@),
        presented_key(*api_key_header) == expected_key@ ==> match r {
            Err(e) => no_eligible(registry@, wants_gpu(req.requires_gpu)) && e.kind
                == ErrorKind::ServiceUnavailable && e.message@ == "no eligible nodes"@,
            Ok(plan) => {
                &&& plan.requires_gpu == wants_gpu(req.requires_gpu)
                &&& is_pick(registry@, plan.node@, plan.requires_gpu)
                &&& plan.start_url@ == plan.node.url@ + "/v1/sessions/start"@
                &&& plan.body.image@ == req.image@
                &&& plan.body.requires_gpu == Some(plan.requires_gpu)
                &&& opt_strings_view(plan.body.cmd) == opt_strings_view(req.cmd)
            },
        },
{
    match check_api_key(api_key_header, expected_key) {
        Err(e) => {
            return Err(e);
        },
        Ok(()) => {},
    }
    let requires_gpu = match req.requires_gpu {
        Some(b) => b,
        None => false,
    };
    let node = match registry.pick_node(requires_gpu) {
        Some(n) => n,
        None => {
            return Err(ApiError::new(ErrorKind::ServiceUnavailable, "no eligible nodes"));
        },
    };
    let start_url = join_url(node.url.as_str(), "/v1/sessions/start");
    let cmd = match &req.cmd {
        Some(c) => Some(copy_strings(c)),
        None => None,
    };
    let body = AgentStartSessionRequest {
        image: req.image.clone(),
        requires_gpu: Some(requires_gpu),
        cmd,
    };
    Ok(CreatePlan { node, start_url, body, requires_gpu })
}

/// How an agent answered a start request.
#[derive(Debug)]
pub enum StartReply {
    /// The agent could not be reached.
    Unreachable { error: String },
    /// The agent answered with `status` and `body`; `parsed` is the body read
    /// as a start response, or why it does not read as one.
    Answered { status: u16, body: String, parsed: Result<AgentStartSessionResponse, String> },
}

/// The record of a session that `plan`'s node started as `started` says.
pub open spec fn started_record(
    plan: CreatePlan,
    started: AgentStartSessionResponse,
    now: Timestamp,
) -> SessionRecordView {
    SessionRecordView {
        session_id: started.session_id@,
        node_id: plan.node.id@,
        agent_url: plan.node.url@,
        container_id: started.container_id@,
        image: plan.body.image@,
        requires_gpu: plan.requires_gpu,
        created_at: now,
        running_for_secs: 0,
    }
}

/// Completes placing a session once the agent has answered: a successful
/// answer that reads as a start response is recorded, created at `now`.
pub fn finish_create(table: &mut SessionTable, plan: CreatePlan, reply: StartReply, now: Timestamp) -> (r:
    Result<SessionRecord, ApiError>)
    requires
        old(table).wf(),
    ensures
        final(table).wf(),
        match reply {
            StartReply::Unreachable { error } => (r matches Err(e) && e.kind == ErrorKind::BadGateway
                && e.message@ == "agent unreachable: "@ + error@) && final(table)@ == old(table)@,
            StartReply::Answered { status, body, parsed } => if !is_success(status) {
                (r matches Err(e) && e.kind == ErrorKind::BadGateway && e.message@ == "agent error: "@
                    + body@) && final(table)@ == old(table)@
            } else {
                match parsed {
                    Err(why) => (r matches Err(e) && e.kind == ErrorKind::BadGateway && e.message@
                        == "bad agent json: "@ + why@) && final(table)@ == old(table)@,
                    Ok(started) => (r matches Ok(rec) && rec@ == started_record(plan, started, now))
                        && final(table)@ == table_after_create(
                        old(table)@,
                        started_record(plan, started, now),
                    ),
                }
            },
        },
{
    match reply {
        StartReply::Unreachable { error } => Err(
            ApiError::with_detail(ErrorKind::BadGateway, "agent unreachable: ", error.as_str()),
        ),
        StartReply::Answered { status, body, parsed } => {
            if !status_is_success(status) {
                return Err(
                    ApiError::with_detail(ErrorKind::BadGateway, "agent error: ", body.as_str()),
                );
            }
            match parsed {
                Err(why) => Err(
                    ApiError::with_detail(ErrorKind::BadGateway, "bad agent json: ", why.as_str()),
                ),
                Ok(started) => {
                    let ghost expected = started_record(plan, started, now);
                    let record = SessionRecord {
                        session_id: started.session_id,
                        node_id: plan.node.id,
                        agent_url: plan.node.url,
                        container_id: started.container_id,
                        image: plan.body.image,
                        requires_gpu: plan.requires_gpu,
                        created_at: now,
                        running_for_secs: 0,
                    };
                    assert(record@ == expected);
                    let stored = record.duplicate();
                    table.records.insert(record.session_id.clone(), stored);
                    assert(final(table)@ =~= table_after_create(old(table)@, expected));
                    Ok(record)
                },
            }
        },
    }
}

/// The records of all sessions, oldest first.
pub fn list_sessions(table: &SessionTable) -> (r: Vec<SessionRecord>)
    requires
        table.wf(),
    ensures
        r@.len() == table@.dom().len(),
        forall|i: int|
            0 <= i < r@.len() ==> table@.contains_key((#[trigger] r@[i]).session_id@) && r@[i]@
                == table@[r@[i].session_id@],
        forall|k: Seq<char>| #[trigger]
            table@.contains_key(k) ==> exists|i: int| 0 <= i < r@.len() && r@[i].session_id@ == k,
        forall|a: int, b: int| 0 <= a < b < r@.len() ==> r@[a].created_at.not_after(r@[b].created_at),
{
    proof {
        table.records.lemma_layout();
    }
    let n = table.records.len();
    let mut times: Vec<Timestamp> = Vec::new();
    let mut i: usize = 0;
    while i < n
        invariant
            i <= n == table.records.keys().len() == table.records.values().len(),
            table.wf(),
            times.len() == i,
            forall|j: int| 0 <= j < i ==> #[trigger] times@[j] == table.records.values()[j].created_at,
        decreases n - i,
    {
        times.push(table.records.value_at(i).created_at);
        i = i + 1;
    }
    let order = order_by_time(&times);
    let mut out: Vec<SessionRecord> = Vec::new();
    let mut j: usize = 0;
    while j < n
        invariant
            j <= n == table.records.keys().len() == times.len() == order.len(),
            n == table.records.values().len(),
            table.wf(),
            crate::order::is_arrangement(order@, n as nat),
            forall|a: int| 0 <= a < n ==> #[trigger] times@[a] == table.records.values()[a].created_at,
            forall|a: int, b: int|
                0 <= a < b < order.len() ==> times@[order@[a] as int].not_after(
                    times@[order@[b] as int],
                ),
            out.len() == j,
            forall|a: int|
                0 <= a < j ==> (#[trigger] out@[a]).session_id@ == table.records.keys()[order@[a] as int],
            forall|a: int| 0 <= a < j ==> (#[trigger] out@[a]).created_at == times@[order@[a] as int],
            forall|a: int|
                0 <= a < j ==> table@.contains_key((#[trigger] out@[a]).session_id@) && out@[a]@
                    == table@[out@[a].session_id@],
            forall|k: int|
                0 <= k < n ==> table.records@.contains_key(#[trigger] table.records.keys()[k])
                    && table.records@[table.records.keys()[k]] == table.records.values()[k],
        decreases n - j,
    {
        let idx = order[j];
        let rec = table.records.value_at(idx);
        proof {
            let k = table.records.keys()[idx as int];
            assert(table.records@.contains_key(k));
            assert(table.records@[k].session_id@ == k);
        }
        out.push(rec.duplicate());
        j = j + 1;
    }
    proof {
        assert(table@.dom() =~= table.records@.dom());
        assert forall|k: Seq<char>| #[trigger] table@.contains_key(k) implies exists|i: int|
            0 <= i < out@.len() && out@[i].session_id@ == k by {
            let ki = choose|ki: int|
                0 <= ki < table.records.keys().len() && table.records.keys()[ki] == k;
            assert(lists(order@, ki));
            let a = choose|a: int| 0 <= a < order@.len() && order@[a] == ki;
            assert(out@[a].session_id@ == k);
        }
    }
    out
}

/// A session about to be removed: where to ask its agent to stop it.
#[derive(Debug)]
pub struct DeletePlan {
    pub session_id: String,
    pub stop_url: String,
}

/// Begins removing session `id`: checks the key and finds the session;
/// refused with "unknown session_id" when there is none.
pub fn delete_session(
    table: &SessionTable,
    api_key_header: &Option<String>,
    expected_key: &str,
    id: &String,
) -> (r: Result<DeletePlan, ApiError>)
    requires
        table.wf(),
    ensures
        presented_key(*api_key_header) != expected_key@ ==> (r matches Err(e) && e.kind
            == ErrorKind::Unauthorized && e.message@ == "invalid api key"@),
        presented_key(*api_key_header) == expected_key@ ==> match r {
            Err(e) => !table@.contains_key(id@) && e.kind == ErrorKind::NotFound && e.message@
                == "unknown session_id"@,
            Ok(plan) => table@.contains_key(id@) && plan.session_id@ == id@ && plan.stop_url@
                == table@[id@].agent_url + "/v1/sessions/stop"@,
        },
{
    match check_api_key(api_key_header, expected_key) {
        Err(e) => {
            return Err(e);
        },
        Ok(()) => {},
    }
    match table.records.get(id) {
        None => Err(ApiError::new(ErrorKind::NotFound, "unknown session_id")),
        Some(rec) => Ok(
            DeletePlan {
                session_id: id.clone(),
                stop_url: join_url(rec.agent_url.as_str(), "/v1/sessions/stop"),
            },
        ),
    }
}

/// How an agent answered a stop request.
#[derive(Debug)]
pub enum StopReply {
    /// The agent could not be reached.
    Unreachable { error: String },
    /// The agent answered with `status` and `body`.
    Answered { status: u16, body: String },
}

/// Completes removing session `id` once its agent has answered: the session
/// is forgotten only when the agent stopped it.
pub fn finish_delete(table: &mut SessionTable, id: &String, reply: StopReply) -> (r: Result<
    (),
    ApiError,
>)
    requires
        old(table).wf(),
    ensures
        final(table).wf(),
        match reply {
            StopReply::Unreachable { error } => (r matches Err(e) && e.kind == ErrorKind::BadGateway
                && e.message@ == "agent unreachable: "@ + error@) && final(table)@ == old(table)@,
            StopReply::Answered { status, body } => if !is_success(status) {
                (r matches Err(e) && e.kind == ErrorKind::BadGateway && e.message@
                    == "agent stop failed: "@ + body@) && final(table)@ == old(table)@
            } else {
                r is Ok && final(table)@ == table_after_delete(old(table)@, id@)
            },
        },
{
    match reply {
        StopReply::Unreachable { error } => Err(
            ApiError::with_detail(ErrorKind::BadGateway, "agent unreachable: ", error.as_str()),
        ),
        StopReply::Answered { status, body } => {
            if !status_is_success(status) {
                return Err(
                    ApiError::with_detail(ErrorKind::BadGateway, "agent stop failed: ", body.as_str()),
                );
            }
            let _removed = table.records.remove(id);
            assert(final(table)@ =~= table_after_delete(old(table)@, id@));
            Ok(())
        },
    }
}

/// Recording a session that was not in the table and then removing it
/// leaves the table as it was; a session recorded is found under its id.
pub proof fn law_create_then_delete(m: Map<Seq<char>, SessionRecordView>, rec: SessionRecordView)
    requires
        !m.contains_key(rec.session_id),
    ensures
        table_after_delete(table_after_create(m, rec), rec.session_id) == m,
        table_after_create(m, rec)[rec.session_id] == rec,
{
    assert(table_after_delete(table_after_create(m, rec), rec.session_id) =~= m);
}

/// A session recorded from an agent's start answer keeps what was asked and
/// answered: its id and container as the agent gave them, the chosen node,
/// the image, whether it needs GPUs exactly as the request said (absent
/// meaning no), and the moment it was recorded; the table then holds it
/// under its id.
pub proof fn law_recorded_session_keeps_the_request(
    m: Map<Seq<char>, SessionRecordView>,
    plan: CreatePlan,
    started: AgentStartSessionResponse,
    now: Timestamp,
    asked: Option<bool>,
)
    requires
        plan.requires_gpu == wants_gpu(asked),
    ensures
        ({
            let rec = started_record(plan, started, now);
            let t = table_after_create(m, rec);
            &&& t.contains_key(started.session_id@)
            &&& t[started.session_id@] == rec
            &&& rec.session_id == started.session_id@
            &&& rec.container_id == started.container_id@
            &&& rec.node_id == plan.node.id@
            &&& rec.agent_url == plan.node.url@
            &&& rec.image == plan.body.image@
            &&& rec.created_at == now
            &&& (asked == Some(true) ==> rec.requires_gpu)
            &&& (asked != Some(true) ==> !rec.requires_gpu)
        }),
{
}

} // verus!
