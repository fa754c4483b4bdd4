//! The hub's registry of agents: registration, heartbeats, staleness,
//! listing, and the choice of an agent for a new session.
use vstd::prelude::*;
use crate::agent::types::{copy_opt_report, copy_opt_string, ResourceReportView};
use crate::error::{ApiError, ErrorKind};
use crate::hub::auth::{check_api_key, presented_key};
use crate::hub::types::{HeartbeatRequest, NodeState, NodeStateView, NodeStatus, NodeView, RegisterRequest};
use crate::keyed::KeyedVec;
use crate::numbers::{signed_decimal, write_signed_decimal};
use crate::order::{lists, order_by_text, text_lt};
use crate::text::{chars_of, copy_str, push_char};
use crate::time::{clamp_i64, elapsed_secs, whole_seconds_between, Timestamp};

verus! {

impl NodeState {
    /// A copy of the node.
    pub fn duplicate(&self) -> (r: NodeState)
        ensures
            r@ == self@,
    {
        NodeState {
            id: self.id.clone(),
            url: self.url.clone(),
            status: self.status,
            last_seen: self.last_seen,
            last_error: copy_opt_string(&self.last_error),
            resources: copy_opt_report(&self.resources),
        }
    }

    /// The node as listed.
    pub fn to_view(&self) -> (r: NodeView)
        ensures
            r@ == self@,
    {
        NodeView {
            id: self.id.clone(),
            url: self.url.clone(),
            status: self.status,
            last_seen: self.last_seen,
            last_error: copy_opt_string(&self.last_error),
            resources: copy_opt_report(&self.resources),
        }
    }
}

/// A freshly registered agent: up, seen now, without error or report.
pub open spec fn registered_node(id: Seq<char>, url: Seq<char>, now: Timestamp) -> NodeStateView {
    NodeStateView {
        id,
        url,
        status: NodeStatus::Up,
        last_seen: now,
        last_error: None,
        resources: None,
    }
}

/// An agent after a heartbeat at `now`: up, seen now, without error, with
/// the reported resources when the heartbeat carries a report and the
/// previous ones otherwise.
pub open spec fn heartbeat_node(
    n: NodeStateView,
    now: Timestamp,
    report: Option<ResourceReportView>,
) -> NodeStateView {
    NodeStateView {
        status: NodeStatus::Up,
        last_seen: now,
        last_error: None,
        resources: match report {
            Some(r) => Some(r),
            None => n.resources,
        },
        ..n
    }
}

/// Whole seconds since the agent was last seen.
pub open spec fn age_of(n: NodeStateView, now: Timestamp) -> int {
    clamp_i64(whole_seconds_between(now, n.last_seen))
}

/// The error recorded for an agent not seen for `age` seconds.
pub open spec fn stale_message(age: int) -> Seq<char> {
    "stale heartbeat: "@ + signed_decimal(age) + seq!['s']
}

/// An agent after a staleness check at `now`: down, with the age as its
/// error, when it was last seen more than `stale_secs` seconds ago;
/// unchanged otherwise.
pub open spec fn stale_node(n: NodeStateView, now: Timestamp, stale_secs: i64) -> NodeStateView {
    if age_of(n, now) > stale_secs {
        NodeStateView {
            status: NodeStatus::Down,
            last_error: Some(stale_message(age_of(n, now))),
            ..n
        }
    } else {
        n
    }
}

/// The registry after a staleness check.
pub open spec fn mark_stale(
    m: Map<Seq<char>, NodeStateView>,
    now: Timestamp,
    stale_secs: i64,
) -> Map<Seq<char>, NodeStateView> {
    m.map_values(|n: NodeStateView| stale_node(n, now, stale_secs))
}

/// A change the hub makes to its registry.
pub enum RegistryOp {
    /// An agent registers at `now`.
    Register { id: Seq<char>, url: Seq<char>, now: Timestamp },
    /// An agent sends a heartbeat at `now`, with a report or without.
    Heartbeat { id: Seq<char>, now: Timestamp, report: Option<ResourceReportView> },
    /// The hub checks for agents silent longer than `stale_secs` at `now`.
    MarkStale { now: Timestamp, stale_secs: i64 },
}

/// The registry after one change. A heartbeat of an agent that never
/// registered changes nothing.
pub open spec fn apply_op(m: Map<Seq<char>, NodeStateView>, op: RegistryOp) -> Map<
    Seq<char>,
    NodeStateView,
> {
    match op {
        RegistryOp::Register { id, url, now } => m.insert(id, registered_node(id, url, now)),
        RegistryOp::Heartbeat { id, now, report } => if m.contains_key(id) {
            m.insert(id, heartbeat_node(m[id], now, report))
        } else {
            m
        },
        RegistryOp::MarkStale { now, stale_secs } => mark_stale(m, now, stale_secs),
    }
}

/// The registry after a sequence of changes, in order.
pub open spec fn apply_ops(m: Map<Seq<char>, NodeStateView>, ops: Seq<RegistryOp>) -> Map<
    Seq<char>,
    NodeStateView,
>
    decreases ops.len(),
{
    if ops.len() == 0 {
        m
    } else {
        apply_ops(apply_op(m, ops[0]), ops.drop_first())
    }
}

/// Whether a node may take a session: it is up and, when GPUs are needed,
/// its last report lists GPUs.
pub open spec fn eligible(n: NodeStateView, requires_gpu: bool) -> bool {
    &&& n.status == NodeStatus::Up
    &&& requires_gpu ==> (n.resources matches Some(r) && r.gpu is Some)
}

/// Free memory of a node by its last report, zero without a report.
pub open spec fn ram_free(n: NodeStateView) -> u64 {
    match n.resources {
        Some(r) => r.ram_free_mb,
        None => 0,
    }
}

/// No node of `m` may take a session.
pub open spec fn no_eligible(m: Map<Seq<char>, NodeStateView>, requires_gpu: bool) -> bool {
    forall|k: Seq<char>| #[trigger] m.contains_key(k) ==> !eligible(m[k], requires_gpu)
}

/// `n` is a node of `m` that may take the session and has as much free
/// memory as any node that may.
pub open spec fn is_pick(m: Map<Seq<char>, NodeStateView>, n: NodeStateView, requires_gpu: bool) -> bool {
    &&& m.contains_key(n.id)
    &&& n == m[n.id]
    &&& eligible(n, requires_gpu)
    &&& forall|k: Seq<char>| #[trigger]
        m.contains_key(k) && eligible(m[k], requires_gpu) ==> ram_free(m[k]) <= ram_free(n)
}

/// The agents known to the hub, by agent id.
pub struct NodeRegistry {
    pub nodes: KeyedVec<NodeState>,
}

impl NodeRegistry {
    /// The registry is consistent: each agent is stored under its own id.
    pub open spec fn wf(&self) -> bool {
        &&& self.nodes.wf()
        &&& forall|k: Seq<char>| #[trigger] self.nodes@.contains_key(k) ==> self.nodes@[k].id@ == k
    }

    /// The agents by id.
    pub open spec fn view(&self) -> Map<Seq<char>, NodeStateView> {
        self.nodes@.map_values(|n: NodeState| n@)
    }

    /// A registry with no agent.
    pub fn new() -> (r: NodeRegistry)
        ensures
            r.wf(),
            r@ == Map::<Seq<char>, NodeStateView>::empty(),
    {
        let r = NodeRegistry { nodes: KeyedVec::new() };
        assert(r@ =~= Map::<Seq<char>, NodeStateView>::empty());
        r
    }

    /// Records the agent of `req` as registered now, replacing what was known
    /// of it; tells whether it was known.
    pub fn register(&mut self, req: &RegisterRequest, now: Timestamp) -> (existed: bool)
        requires
            old(self).wf(),
        ensures
            final(self).wf(),
            existed == old(self)@.contains_key(req.agent_id@),
            final(self)@ == old(self)@.insert(
                req.agent_id@,
                registered_node(req.agent_id@, req.agent_url@, now),
            ),
            final(self)@ == apply_op(
                old(self)@,
                RegistryOp::Register { id: req.agent_id@, url: req.agent_url@, now },
            ),
    {
        let node = NodeState {
            id: req.agent_id.clone(),
            url: req.agent_url.clone(),
            status: NodeStatus::Up,
            last_seen: now,
            last_error: None,
            resources: None,
        };
        let ghost node_view = node@;
        let existed = self.nodes.insert(req.agent_id.clone(), node);
        assert(final(self)@ =~= old(self)@.insert(req.agent_id@, node_view));
        existed
    }

    /// Records a heartbeat of the agent of `req` at `now`; an agent that never
    /// registered is refused and nothing changes.
    pub fn heartbeat(&mut self, req: HeartbeatRequest, now: Timestamp) -> (r: Result<(), ApiError>)
        requires
            old(self).wf(),
        ensures
            final(self).wf(),
            match r {
                Ok(()) => old(self)@.contains_key(req.agent_id@) && final(self)@ == old(self)@.insert(
                    req.agent_id@,
                    heartbeat_node(
                        old(self)@[req.agent_id@],
                        now,
                        crate::agent::types::opt_report_view(req.resources),
                    ),
                ),
                Err(e) => !old(self)@.contains_key(req.agent_id@) && e.kind == ErrorKind::NotFound
                    && e.message@ == "agent not registered"@ && final(self)@ == old(self)@,
            },
            final(self)@ == apply_op(
                old(self)@,
                RegistryOp::Heartbeat {
                    id: req.agent_id@,
                    now,
                    report: crate::agent::types::opt_report_view(req.resources),
                },
            ),
    {
        match self.nodes.position(&req.agent_id) {
            None => Err(ApiError::new(ErrorKind::NotFound, "agent not registered")),
            Some(i) => {
                let ghost report_view = crate::agent::types::opt_report_view(req.resources);
                let old_node = self.nodes.value_at(i);
                let resources = match req.resources {
                    Some(r) => Some(r),
                    None => copy_opt_report(&old_node.resources),
                };
                let node = NodeState {
                    id: old_node.id.clone(),
                    url: old_node.url.clone(),
                    status: NodeStatus::Up,
                    last_seen: now,
                    last_error: None,
                    resources,
                };
                let ghost node_view = node@;
                assert(node_view == heartbeat_node(old(self)@[req.agent_id@], now, report_view));
                self.nodes.set_value_at(i, node);
                assert(final(self)@ =~= old(self)@.insert(req.agent_id@, node_view));
                Ok(())
            },
        }
    }

    /// Marks as down every agent last seen more than `stale_secs` seconds
    /// before `now`, recording how long ago that was.
    pub fn mark_stale_nodes(&mut self, now: Timestamp, stale_secs: i64)
        requires
            old(self).wf(),
        ensures
            final(self).wf(),
            final(self)@ == mark_stale(old(self)@, now, stale_secs),
            final(self)@ == apply_op(old(self)@, RegistryOp::MarkStale { now, stale_secs }),
    {
        proof {
            self.nodes.lemma_layout();
        }
        let n = self.nodes.len();
        let mut i: usize = 0;
        while i < n
            invariant
                i <= n == self.nodes.keys().len() == self.nodes.values().len(),
                self.wf(),
                self.nodes.keys() == old(self).nodes.keys(),
                old(self).nodes.values().len() == n,
                forall|j: int| 0 <= j < i ==> (#[trigger] self.nodes.values()[j])@ == stale_node(
                    old(self).nodes.values()[j]@,
                    now,
                    stale_secs,
                ),
                forall|j: int| i <= j < n ==> #[trigger] self.nodes.values()[j] == old(
                    self,
                ).nodes.values()[j],
            decreases n - i,
        {
            let node = self.nodes.value_at(i);
            let age = elapsed_secs(now, node.last_seen);
            if age > stale_secs {
                let mut message = copy_str("stale heartbeat: ");
                write_signed_decimal(&mut message, age);
                push_char(&mut message, 's');
                let updated = NodeState {
                    id: node.id.clone(),
                    url: node.url.clone(),
                    status: NodeStatus::Down,
                    last_seen: node.last_seen,
                    last_error: Some(message),
                    resources: copy_opt_report(&node.resources),
                };
                proof {
                    self.nodes.lemma_layout();
                    let k = self.nodes.keys()[i as int];
                    assert(self.nodes@[k] == self.nodes.values()[i as int]);
                    let m = "stale heartbeat: "@ + signed_decimal(age as int);
                    assert(m.push('s') =~= m + seq!['s']);
                    assert(updated@ == stale_node(old(self).nodes.values()[i as int]@, now, stale_secs));
                }
                self.nodes.set_value_at(i, updated);
                proof {
                    assert forall|k: Seq<char>| #[trigger] self.nodes@.contains_key(k) implies self.nodes@[k].id@
                        == k by {
                        self.nodes.lemma_layout();
                    }
                }
            }
            i = i + 1;
        }
        proof {
            self.nodes.lemma_layout();
            old(self).nodes.lemma_layout();
            let m = mark_stale(old(self)@, now, stale_secs);
            assert forall|k: Seq<char>| #[trigger] final(self)@.contains_key(k) == m.contains_key(k) by {
                if final(self)@.contains_key(k) {
                    let j = choose|j: int|
                        0 <= j < self.nodes.keys().len() && self.nodes.keys()[j] == k;
                    assert(old(self).nodes.keys()[j] == k);
                } else if old(self).nodes@.contains_key(k) {
                    let j = choose|j: int|
                        0 <= j < old(self).nodes.keys().len() && old(self).nodes.keys()[j] == k;
                    assert(self.nodes.keys()[j] == k);
                }
            }
            assert forall|k: Seq<char>| #[trigger] final(self)@.contains_key(k) implies final(self)@[k]
                == m[k] by {
                let j = choose|j: int| 0 <= j < self.nodes.keys().len() && self.nodes.keys()[j] == k;
                assert(old(self).nodes.keys()[j] == k);
            }
            assert(final(self)@ =~= m);
        }
    }

    /// The agents, by id in code-point order.
    pub fn list_agents(&self) -> (r: Vec<NodeView>)
        requires
            self.wf(),
        ensures
            r@.len() == self@.dom().len(),
            forall|i: int|
                0 <= i < r@.len() ==> self@.contains_key((#[trigger] r@[i]).id@) && r@[i]@
                    == self@[r@[i].id@],
            forall|k: Seq<char>| #[trigger]
                self@.contains_key(k) ==> exists|i: int| 0 <= i < r@.len() && r@[i].id@ == k,
            forall|a: int, b: int| 0 <= a < b < r@.len() ==> text_lt(r@[a].id@, r@[b].id@),
    {
        proof {
            self.nodes.lemma_layout();
        }
        let n = self.nodes.len();
        let mut keys: Vec<Vec<char>> = Vec::new();
        let mut i: usize = 0;
        while i < n
            invariant
                i <= n == self.nodes.keys().len(),
                self.wf(),
                keys.len() == i,
                forall|j: int| 0 <= j < i ==> (#[trigger] keys@[j])@ == self.nodes.keys()[j],
            decreases n - i,
        {
            keys.push(chars_of(self.nodes.key_at(i).as_str()));
            i = i + 1;
        }
        proof {
            assert forall|a: int, b: int| 0 <= a < b < keys.len() implies keys@[a]@ != keys@[b]@ by {
                assert(self.nodes.keys().no_duplicates());
            }
        }
        let order = order_by_text(&keys);
        let mut out: Vec<NodeView> = Vec::new();
        let mut j: usize = 0;
        while j < n
            invariant
                j <= n == self.nodes.keys().len() == keys.len() == order.len(),
                n == self.nodes.values().len(),
                self.wf(),
                crate::order::is_arrangement(order@, n as nat),
                forall|a: int| 0 <= a < n ==> (#[trigger] keys@[a])@ == self.nodes.keys()[a],
                forall|a: int, b: int|
                    0 <= a < b < order.len() ==> text_lt(
                        keys@[order@[a] as int]@,
                        keys@[order@[b] as int]@,
                    ),
                out.len() == j,
                forall|a: int|
                    0 <= a < j ==> (#[trigger] out@[a]).id@ == self.nodes.keys()[order@[a] as int],
                forall|a: int| 0 <= a < j ==> self@.contains_key((#[trigger] out@[a]).id@) && out@[a]@
                    == self@[out@[a].id@],
                forall|k: int|
                    0 <= k < n ==> self.nodes@.contains_key(#[trigger] self.nodes.keys()[k])
                        && self.nodes@[self.nodes.keys()[k]] == self.nodes.values()[k],
            decreases n - j,
        {
            let idx = order[j];
            let node = self.nodes.value_at(idx);
            out.push(node.to_view());
            j = j + 1;
        }
        proof {
            assert(self@.dom() =~= self.nodes@.dom());
            assert forall|a: int, b: int| 0 <= a < b < out@.len() implies text_lt(
                out@[a].id@,
                out@[b].id@,
            ) by {
                assert(out@[a].id@ == keys@[order@[a] as int]@);
                assert(out@[b].id@ == keys@[order@[b] as int]@);
            }
            assert forall|k: Seq<char>| #[trigger] self@.contains_key(k) implies exists|i: int|
                0 <= i < out@.len() && out@[i].id@ == k by {
                let ki = choose|ki: int|
                    0 <= ki < self.nodes.keys().len() && self.nodes.keys()[ki] == k;
                assert(lists(order@, ki));
                let a = choose|a: int| 0 <= a < order@.len() && order@[a] == ki;
                assert(out@[a].id@ == k);
            }
        }
        out
    }

    /// The node for a new session: among the nodes that may take it, one with
    /// the most free memory; none when no node may take it.
    pub fn pick_node(&self, requires_gpu: bool) -> (r: Option<NodeState>)
        requires
            self.wf(),
        ensures
            r is None <==> no_eligible(self@, requires_gpu),
            r matches Some(n) ==> is_pick(self@, n@, requires_gpu),
    {
        proof {
            self.nodes.lemma_layout();
        }
        let n = self.nodes.len();
        let mut best: Option<usize> = None;
        let mut best_ram: u64 = 0;
        let mut i: usize = 0;
        while i < n
            invariant
                i <= n == self.nodes.keys().len() == self.nodes.values().len(),
                self.wf(),
                best is None ==> forall|j: int|
                    0 <= j < i ==> !eligible((#[trigger] self.nodes.values()[j])@, requires_gpu),
                best matches Some(b) ==> {
                    &&& b < i
                    &&& eligible(self.nodes.values()[b as int]@, requires_gpu)
                    &&& best_ram == ram_free(self.nodes.values()[b as int]@)
                    &&& forall|j: int|
                        0 <= j < i && eligible((#[trigger] self.nodes.values()[j])@, requires_gpu)
                            ==> ram_free(self.nodes.values()[j]@) <= best_ram
                },
            decreases n - i,
        {
            let node = self.nodes.value_at(i);
            let up = match node.status {
                NodeStatus::Up => true,
                NodeStatus::Down => false,
            };
            let has_gpu = match &node.resources {
                Some(r) => r.gpu.is_some(),
                None => false,
            };
            if up && (!requires_gpu || has_gpu) {
                let ram = match &node.resources {
                    Some(r) => r.ram_free_mb,
                    None => 0,
                };
                match best {
                    None => {
                        best = Some(i);
                        best_ram = ram;
                    },
                    Some(_) => {
                        if ram >= best_ram {
                            best = Some(i);
                            best_ram = ram;
                        }
                    },
                }
            }
            i = i + 1;
        }
        match best {
            None => {
                proof {
                    self.nodes.lemma_layout();
                    assert forall|k: Seq<char>| #[trigger] self@.contains_key(k) implies !eligible(
                        self@[k],
                        requires_gpu,
                    ) by {
                        let j = choose|j: int|
                            0 <= j < self.nodes.keys().len() && self.nodes.keys()[j] == k;
                        assert(self.nodes@[k] == self.nodes.values()[j]);
                    }
                }
                None
            },
            Some(b) => {
                let picked = self.nodes.value_at(b).duplicate();
                proof {
                    self.nodes.lemma_layout();
                    let kb = self.nodes.keys()[b as int];
                    assert(self.nodes@.contains_key(kb));
                    assert(self.nodes@[kb] == self.nodes.values()[b as int]);
                    assert(self.nodes@[kb].id@ == kb);
                    assert forall|k: Seq<char>| #[trigger]
                        self@.contains_key(k) && eligible(self@[k], requires_gpu) implies ram_free(
                        self@[k],
                    ) <= ram_free(picked@) by {
                        let j = choose|j: int|
                            0 <= j < self.nodes.keys().len() && self.nodes.keys()[j] == k;
                        assert(self.nodes@[k] == self.nodes.values()[j]);
                    }
                    assert(self@.contains_key(kb));
                    assert(!no_eligible(self@, requires_gpu));
                }
                Some(picked)
            },
        }
    }
}

/// Handles a registration: checks the key, then records the agent.
pub fn register_agent(
    registry: &mut NodeRegistry,
    api_key_header: &Option<String>,
    expected_key: &str,
    req: &RegisterRequest,
    now: Timestamp,
) -> (r: Result<bool, ApiError>)
    requires
        old(registry).wf(),
    ensures
        final(registry).wf(),
        presented_key(*api_key_header) != expected_key@ ==> (r matches Err(e) && e.kind
            == ErrorKind::Unauthorized && e.message@ == "invalid api key"@ && final(registry)@ == old(registry)@),
        presented_key(*api_key_header) == expected_key@ ==> r == Ok::<bool, ApiError>(
            old(registry)@.contains_key(req.agent_id@),
        ) && final(registry)@ == old(registry)@.insert(
            req.agent_id@,
            registered_node(req.agent_id@, req.agent_url@, now),
        ),
        presented_key(*api_key_header) == expected_key@ ==> final(registry)@ == apply_op(
            old(registry)@,
            RegistryOp::Register { id: req.agent_id@, url: req.agent_url@, now },
        ),
{
    match check_api_key(api_key_header, expected_key) {
        Err(e) => Err(e),
        Ok(()) => Ok(registry.register(req, now)),
    }
}

/// Handles a heartbeat: checks the key, then records the heartbeat.
pub fn heartbeat(
    registry: &mut NodeRegistry,
    api_key_header: &Option<String>,
    expected_key: &str,
    req: HeartbeatRequest,
    now: Timestamp,
) -> (r: Result<(), ApiError>)
    requires
        old(registry).wf(),
    ensures
        final(registry).wf(),
        presented_key(*api_key_header) != expected_key@ ==> (r matches Err(e) && e.kind
            == ErrorKind::Unauthorized && e.message@ == "invalid api key"@ && final(registry)@ == old(registry)@),
        presented_key(*api_key_header) == expected_key@ ==> match r {
            Ok(()) => old(registry)@.contains_key(req.agent_id@) && final(registry)@ == old(
                registry,
            )@.insert(
                req.agent_id@,
                heartbeat_node(
                    old(registry)@[req.agent_id@],
                    now,
                    crate::agent::types::opt_report_view(req.resources),
                ),
            ),
            Err(e) => !old(registry)@.contains_key(req.agent_id@) && e.kind == ErrorKind::NotFound
                && e.message@ == "agent not registered"@ && final(registry)@ == old(registry)@,
        },
        presented_key(*api_key_header) == expected_key@ ==> final(registry)@ == apply_op(
            old(registry)@,
            RegistryOp::Heartbeat {
                id: req.agent_id@,
                now,
                report: crate::agent::types::opt_report_view(req.resources),
            },
        ),
{
    match check_api_key(api_key_header, expected_key) {
        Err(e) => Err(e),
        Ok(()) => registry.heartbeat(req, now),
    }
}

/// An agent is not stale at the moment it registers, whatever the
/// (non-negative) staleness limit.
pub proof fn law_fresh_registration_is_up(
    m: Map<Seq<char>, NodeStateView>,
    id: Seq<char>,
    url: Seq<char>,
    now: Timestamp,
    stale_secs: i64,
)
    requires
        stale_secs >= 0,
    ensures
        mark_stale(m.insert(id, registered_node(id, url, now)), now, stale_secs)[id]
            == registered_node(id, url, now),
{
    let m2 = m.insert(id, registered_node(id, url, now));
    assert(age_of(registered_node(id, url, now), now) == 0);
    assert(mark_stale(m2, now, stale_secs).dom() =~= m2.dom());
}

/// A heartbeat brings an agent back up, and a staleness check at the same
/// moment leaves it so.
pub proof fn law_heartbeat_revives(
    n: NodeStateView,
    now: Timestamp,
    report: Option<ResourceReportView>,
    stale_secs: i64,
)
    requires
        stale_secs >= 0,
    ensures
        stale_node(heartbeat_node(n, now, report), now, stale_secs) == heartbeat_node(n, now, report),
        heartbeat_node(n, now, report).status == NodeStatus::Up,
        heartbeat_node(n, now, report).last_error is None,
{
    assert(age_of(heartbeat_node(n, now, report), now) == 0);
}

/// A staleness check keeps every agent, changes only status and error, and
/// never brings an agent up; an agent silent for longer than the limit is
/// down afterwards.
pub proof fn law_staleness_only_takes_down(
    m: Map<Seq<char>, NodeStateView>,
    now: Timestamp,
    stale_secs: i64,
    k: Seq<char>,
)
    requires
        m.contains_key(k),
    ensures
        mark_stale(m, now, stale_secs).dom() == m.dom(),
        mark_stale(m, now, stale_secs)[k].id == m[k].id,
        mark_stale(m, now, stale_secs)[k].url == m[k].url,
        mark_stale(m, now, stale_secs)[k].last_seen == m[k].last_seen,
        mark_stale(m, now, stale_secs)[k].resources == m[k].resources,
        mark_stale(m, now, stale_secs)[k].status == NodeStatus::Up ==> m[k].status == NodeStatus::Up,
        age_of(m[k], now) > stale_secs ==> mark_stale(m, now, stale_secs)[k].status
            == NodeStatus::Down,
        age_of(m[k], now) <= stale_secs ==> mark_stale(m, now, stale_secs)[k] == m[k],
{
    assert(mark_stale(m, now, stale_secs).dom() =~= m.dom());
}

/// Checking staleness twice at the same moment changes nothing more than
/// checking once.
pub proof fn law_staleness_check_idempotent(
    m: Map<Seq<char>, NodeStateView>,
    now: Timestamp,
    stale_secs: i64,
)
    ensures
        mark_stale(mark_stale(m, now, stale_secs), now, stale_secs) == mark_stale(m, now, stale_secs),
{
    let once = mark_stale(m, now, stale_secs);
    assert(mark_stale(once, now, stale_secs) =~= once);
}

/// A node chosen for a session is up, reports GPUs when the session needs
/// them, and no node that may take the session has more free memory; when
/// every node is down, no node is chosen.
pub proof fn law_picked_node_is_fit(
    m: Map<Seq<char>, NodeStateView>,
    n: NodeStateView,
    requires_gpu: bool,
)
    ensures
        is_pick(m, n, requires_gpu) ==> n.status == NodeStatus::Up,
        is_pick(m, n, requires_gpu) && requires_gpu ==> (n.resources matches Some(r) && r.gpu is Some),
        is_pick(m, n, requires_gpu) ==> !no_eligible(m, requires_gpu),
        (forall|k: Seq<char>| #[trigger] m.contains_key(k) ==> m[k].status == NodeStatus::Down)
            ==> no_eligible(m, requires_gpu),
{
    if is_pick(m, n, requires_gpu) {
        assert(m.contains_key(n.id));
    }
}

/// No change ever removes an agent: one that the registry holds, it holds
/// after any sequence of registrations, heartbeats and staleness checks.
pub proof fn law_agents_never_removed(
    m: Map<Seq<char>, NodeStateView>,
    ops: Seq<RegistryOp>,
    a: Seq<char>,
)
    requires
        m.contains_key(a),
    ensures
        apply_ops(m, ops).contains_key(a),
    decreases ops.len(),
{
    if ops.len() > 0 {
        let m1 = apply_op(m, ops[0]);
        if let RegistryOp::MarkStale { now, stale_secs } = ops[0] {
            assert(mark_stale(m, now, stale_secs).dom() =~= m.dom());
        }
        assert(m1.contains_key(a));
        law_agents_never_removed(m1, ops.drop_first(), a);
    }
}

/// Once an agent has registered, whatever registrations, heartbeats and
/// staleness checks follow, its next heartbeat is accepted and leaves it up,
/// seen at that moment, without error.
pub proof fn law_registered_agent_heartbeat_accepted(
    m: Map<Seq<char>, NodeStateView>,
    id: Seq<char>,
    url: Seq<char>,
    registered_at: Timestamp,
    ops: Seq<RegistryOp>,
    now: Timestamp,
    report: Option<ResourceReportView>,
)
    ensures
        ({
            let before = apply_ops(
                apply_op(m, RegistryOp::Register { id, url, now: registered_at }),
                ops,
            );
            let after = apply_op(before, RegistryOp::Heartbeat { id, now, report });
            &&& before.contains_key(id)
            &&& after == before.insert(id, heartbeat_node(before[id], now, report))
            &&& after[id].status == NodeStatus::Up
            &&& after[id].last_seen == now
            &&& after[id].last_error is None
        }),
{
    let m1 = apply_op(m, RegistryOp::Register { id, url, now: registered_at });
    assert(m1.contains_key(id));
    law_agents_never_removed(m1, ops, id);
}

/// A heartbeat that carries a report replaces whatever report the agent had
/// with that one; one without a report keeps the previous report. Two
/// heartbeats in a row leave the later report, or the earlier one when the
/// later carries none.
pub proof fn law_heartbeat_report_replaces(
    m: Map<Seq<char>, NodeStateView>,
    id: Seq<char>,
    t1: Timestamp,
    r1: Option<ResourceReportView>,
    t2: Timestamp,
    r2: Option<ResourceReportView>,
)
    requires
        m.contains_key(id),
    ensures
        ({
            let once = apply_op(m, RegistryOp::Heartbeat { id, now: t1, report: r1 });
            let twice = apply_op(once, RegistryOp::Heartbeat { id, now: t2, report: r2 });
            &&& r1 is Some ==> once[id].resources == r1
            &&& r1 is None ==> once[id].resources == m[id].resources
            &&& r2 is Some ==> twice[id].resources == r2
            &&& r2 is None && r1 is Some ==> twice[id].resources == r1
            &&& twice[id].last_seen == t2
            &&& twice[id].id == m[id].id
            &&& twice[id].url == m[id].url
        }),
{
}

/// The free memory that placement counts for an agent is the free memory of
/// its last report, whether or not it has GPUs, and none without a report.
pub proof fn law_free_memory_is_reported(n: NodeStateView)
    ensures
        n.resources matches Some(r) ==> ram_free(n) == r.ram_free_mb,
        n.resources is None ==> ram_free(n) == 0,
{
}

/// A session that needs no GPU may go to any agent that is up, whether or
/// not it has GPUs; one that needs GPUs may go exactly to the agents that are
/// up and whose last report lists GPUs.
pub proof fn law_who_may_take_a_session(n: NodeStateView)
    ensures
        eligible(n, false) <==> n.status == NodeStatus::Up,
        eligible(n, true) <==> (n.status == NodeStatus::Up && (n.resources matches Some(r)
            && r.gpu is Some)),
{
}

/// When some agent is up, a session that needs no GPU always finds a node.
pub proof fn law_some_node_when_one_is_up(m: Map<Seq<char>, NodeStateView>, k: Seq<char>)
    requires
        m.contains_key(k),
        m[k].status == NodeStatus::Up,
    ensures
        !no_eligible(m, false),
{
    assert(eligible(m[k], false));
}

/// The node chosen for a session is up, and every agent that is up (with
/// GPUs in its last report, when the session needs them) reports at most as
/// much free memory as the chosen one, counting an agent without a report as
/// having none; GPUs do not change how memory counts.
pub proof fn law_pick_has_most_reported_memory(
    m: Map<Seq<char>, NodeStateView>,
    n: NodeStateView,
    requires_gpu: bool,
    k: Seq<char>,
)
    requires
        is_pick(m, n, requires_gpu),
        m.contains_key(k),
        m[k].status == NodeStatus::Up,
        requires_gpu ==> (m[k].resources matches Some(r) && r.gpu is Some),
    ensures
        n.status == NodeStatus::Up,
        m.contains_key(n.id) && m[n.id] == n,
        (match m[k].resources {
            Some(r) => r.ram_free_mb as int,
            None => 0int,
        }) <= (match n.resources {
            Some(r) => r.ram_free_mb as int,
            None => 0int,
        }),
{
    assert(eligible(m[k], requires_gpu));
    assert(m.contains_key(k) && eligible(m[k], requires_gpu));
    law_free_memory_is_reported(m[k]);
    law_free_memory_is_reported(n);
}

} // verus!
