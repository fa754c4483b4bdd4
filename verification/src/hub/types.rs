//! What the hub keeps about agents and sessions, and what its HTTP
//! interface takes and answers.
use vstd::prelude::*;
use crate::agent::types::{opt_report_view, opt_text, ResourceReportView};
use crate::time::Timestamp;

pub use crate::agent::types::{
    GpuDevice, GpuInfo, HealthResponse, RegisterRequest, ResourceReport,
};

verus! {

/// Whether an agent is reachable.
#[derive(Debug, Clone, Copy, PartialEq, Eq, Structural)]
pub enum NodeStatus {
    Up,
    Down,
}

/// What the hub knows of an agent.
#[derive(Debug)]
pub struct NodeState {
    pub id: String,
    pub url: String,
    pub status: NodeStatus,
    pub last_seen: Timestamp,
    pub last_error: Option<String>,
    pub resources: Option<ResourceReport>,
}

/// The content of a `NodeState` or a `NodeView`.
pub struct NodeStateView {
    pub id: Seq<char>,
    pub url: Seq<char>,
    pub status: NodeStatus,
    pub last_seen: Timestamp,
    pub last_error: Option<Seq<char>>,
    pub resources: Option<ResourceReportView>,
}

impl View for NodeState {
    type V = NodeStateView;

    open spec fn view(&self) -> NodeStateView {
        NodeStateView {
            id: self.id@,
            url: self.url@,
            status: self.status,
            last_seen: self.last_seen,
            last_error: opt_text(self.last_error),
            resources: opt_report_view(self.resources),
        }
    }
}

/// An agent as listed.
#[derive(Debug)]
pub struct NodeView {
    pub id: String,
    pub url: String,
    pub status: NodeStatus,
    pub last_seen: Timestamp,
    pub last_error: Option<String>,
    pub resources: Option<ResourceReport>,
}

impl View for NodeView {
    type V = NodeStateView;

    open spec fn view(&self) -> NodeStateView {
        NodeStateView {
            id: self.id@,
            url: self.url@,
            status: self.status,
            last_seen: self.last_seen,
            last_error: opt_text(self.last_error),
            resources: opt_report_view(self.resources),
        }
    }
}

/// A request to start a session somewhere.
#[derive(Debug)]
pub struct CreateSessionRequest {
    pub image: String,
    pub requires_gpu: Option<bool>,
    pub cmd: Option<Vec<String>>,
}

/// A session that the hub placed on an agent.
#[derive(Debug)]
pub struct SessionRecord {
    pub session_id: String,
    pub node_id: String,
    pub agent_url: String,
    pub container_id: String,
    pub image: String,
    pub requires_gpu: bool,
    pub created_at: Timestamp,
    pub running_for_secs: i64,
}

/// The content of a `SessionRecord`.
pub struct SessionRecordView {
    pub session_id: Seq<char>,
    pub node_id: Seq<char>,
    pub agent_url: Seq<char>,
    pub container_id: Seq<char>,
    pub image: Seq<char>,
    pub requires_gpu: bool,
    pub created_at: Timestamp,
    pub running_for_secs: i64,
}

impl View for SessionRecord {
    type V = SessionRecordView;

    open spec fn view(&self) -> SessionRecordView {
        SessionRecordView {
            session_id: self.session_id@,
            node_id: self.node_id@,
            agent_url: self.agent_url@,
            container_id: self.container_id@,
            image: self.image@,
            requires_gpu: self.requires_gpu,
            created_at: self.created_at,
            running_for_secs: self.running_for_secs,
        }
    }
}

impl SessionRecord {
    /// A copy of the record.
    pub fn duplicate(&self) -> (r: SessionRecord)
        ensures
            r@ == self@,
    {
        SessionRecord {
            session_id: self.session_id.clone(),
            node_id: self.node_id.clone(),
            agent_url: self.agent_url.clone(),
            container_id: self.container_id.clone(),
            image: self.image.clone(),
            requires_gpu: self.requires_gpu,
            created_at: self.created_at,
            running_for_secs: self.running_for_secs,
        }
    }
}

/// An agent's periodic report.
#[derive(Debug)]
pub struct HeartbeatRequest {
    pub agent_id: String,
    pub resources: Option<ResourceReport>,
}

/// What the hub asks an agent to start.
#[derive(Debug)]
pub struct AgentStartSessionRequest {
    pub image: String,
    pub requires_gpu: Option<bool>,
    pub cmd: Option<Vec<String>>,
}

/// What an agent answers to a start request.
#[derive(Debug)]
pub struct AgentStartSessionResponse {
    pub session_id: String,
    pub container_id: String,
}

/// What the hub asks an agent to stop.
#[derive(Debug)]
pub struct AgentStopReq<'a> {
    pub session_id: &'a str,
}

} // verus!
