//! What an agent reports and what its HTTP interface takes and answers.
use vstd::prelude::*;
use crate::time::Timestamp;

verus! {

/// The text of an optional string.
pub open spec fn opt_text(o: Option<String>) -> Option<Seq<char>> {
    match o {
        Some(s) => Some(s@),
        None => None,
    }
}

/// A copy of an optional string.
pub fn copy_opt_string(o: &Option<String>) -> (r: Option<String>)
    ensures
        r == *o,
        opt_text(r) == opt_text(*o),
{
    match o {
        Some(s) => Some(s.clone()),
        None => None,
    }
}

/// The answer to a health probe.
#[derive(Debug)]
pub struct HealthResponse {
    pub status: &'static str,
}

/// One GPU as `nvidia-smi` reports it. The power readings keep the text that
/// was reported, in watts.
#[derive(Debug)]
pub struct GpuDevice {
    pub name: String,
    pub memory_total_mib: u64,
    pub memory_used_mib: u64,
    pub memory_free_mib: u64,
    pub utilization_gpu_pct: u32,
    pub temperature_c: Option<u32>,
    pub power_draw_w: Option<String>,
    pub power_limit_w: Option<String>,
}

/// The content of a `GpuDevice`.
pub struct GpuDeviceView {
    pub name: Seq<char>,
    pub memory_total_mib: u64,
    pub memory_used_mib: u64,
    pub memory_free_mib: u64,
    pub utilization_gpu_pct: u32,
    pub temperature_c: Option<u32>,
    pub power_draw_w: Option<Seq<char>>,
    pub power_limit_w: Option<Seq<char>>,
}

impl View for GpuDevice {
    type V = GpuDeviceView;

    open spec fn view(&self) -> GpuDeviceView {
        GpuDeviceView {
            name: self.name@,
            memory_total_mib: self.memory_total_mib,
            memory_used_mib: self.memory_used_mib,
            memory_free_mib: self.memory_free_mib,
            utilization_gpu_pct: self.utilization_gpu_pct,
            temperature_c: self.temperature_c,
            power_draw_w: opt_text(self.power_draw_w),
            power_limit_w: opt_text(self.power_limit_w),
        }
    }
}

impl GpuDevice {
    /// A copy of the device.
    pub fn duplicate(&self) -> (r: GpuDevice)
        ensures
            r@ == self@,
    {
        GpuDevice {
            name: self.name.clone(),
            memory_total_mib: self.memory_total_mib,
            memory_used_mib: self.memory_used_mib,
            memory_free_mib: self.memory_free_mib,
            utilization_gpu_pct: self.utilization_gpu_pct,
            temperature_c: self.temperature_c,
            power_draw_w: copy_opt_string(&self.power_draw_w),
            power_limit_w: copy_opt_string(&self.power_limit_w),
        }
    }
}

/// The contents of a list of devices.
pub open spec fn devices_view(v: Seq<GpuDevice>) -> Seq<GpuDeviceView> {
    v.map_values(|d: GpuDevice| d@)
}

/// A copy of a list of devices.
pub fn copy_devices(v: &Vec<GpuDevice>) -> (r: Vec<GpuDevice>)
    ensures
        devices_view(r@) == devices_view(v@),
{
    let mut r: Vec<GpuDevice> = Vec::new();
    let mut i: usize = 0;
    while i < v.len()
        invariant
            i <= v.len(),
            r.len() == i,
            forall|j: int| 0 <= j < i ==> (#[trigger] r@[j])@ == v@[j]@,
        decreases v.len() - i,
    {
        r.push(v[i].duplicate());
        i = i + 1;
    }
    assert(devices_view(r@) =~= devices_view(v@));
    r
}

/// The GPUs of a machine.
#[derive(Debug)]
pub struct GpuInfo {
    pub kind: String,
    pub count: u32,
    pub driver_version: Option<String>,
    pub cuda_version: Option<String>,
    pub gpus: Vec<GpuDevice>,
}

/// The content of a `GpuInfo`.
pub struct GpuInfoView {
    pub kind: Seq<char>,
    pub count: u32,
    pub driver_version: Option<Seq<char>>,
    pub cuda_version: Option<Seq<char>>,
    pub gpus: Seq<GpuDeviceView>,
}

impl View for GpuInfo {
    type V = GpuInfoView;

    open spec fn view(&self) -> GpuInfoView {
        GpuInfoView {
            kind: self.kind@,
            count: self.count,
            driver_version: opt_text(self.driver_version),
            cuda_version: opt_text(self.cuda_version),
            gpus: devices_view(self.gpus@),
        }
    }
}

impl GpuInfo {
    /// A copy of the GPU information.
    pub fn duplicate(&self) -> (r: GpuInfo)
        ensures
            r@ == self@,
    {
        GpuInfo {
            kind: self.kind.clone(),
            count: self.count,
            driver_version: copy_opt_string(&self.driver_version),
            cuda_version: copy_opt_string(&self.cuda_version),
            gpus: copy_devices(&self.gpus),
        }
    }
}

/// What a machine offers: memory, cores, disk space under the agent's disk
/// path, and GPUs.
#[derive(Debug)]
pub struct ResourceReport {
    pub ram_total_mb: u64,
    pub ram_free_mb: u64,
    pub cpu_cores: u64,
    pub disk_free_mb: u64,
    pub disk_total_mb: u64,
    pub disk_path: String,
    pub gpu: Option<GpuInfo>,
}

/// The content of a `ResourceReport`.
pub struct ResourceReportView {
    pub ram_total_mb: u64,
    pub ram_free_mb: u64,
    pub cpu_cores: u64,
    pub disk_free_mb: u64,
    pub disk_total_mb: u64,
    pub disk_path: Seq<char>,
    pub gpu: Option<GpuInfoView>,
}

impl View for ResourceReport {
    type V = ResourceReportView;

    open spec fn view(&self) -> ResourceReportView {
        ResourceReportView {
            ram_total_mb: self.ram_total_mb,
            ram_free_mb: self.ram_free_mb,
            cpu_cores: self.cpu_cores,
            disk_free_mb: self.disk_free_mb,
            disk_total_mb: self.disk_total_mb,
            disk_path: self.disk_path@,
            gpu: match self.gpu {
                Some(g) => Some(g@),
                None => None,
            },
        }
    }
}

impl ResourceReport {
    /// A copy of the report.
    pub fn duplicate(&self) -> (r: ResourceReport)
        ensures
            r@ == self@,
    {
        ResourceReport {
            ram_total_mb: self.ram_total_mb,
            ram_free_mb: self.ram_free_mb,
            cpu_cores: self.cpu_cores,
            disk_free_mb: self.disk_free_mb,
            disk_total_mb: self.disk_total_mb,
            disk_path: self.disk_path.clone(),
            gpu: match &self.gpu {
                Some(g) => Some(g.duplicate()),
                None => None,
            },
        }
    }
}

/// The content of an optional report.
pub open spec fn opt_report_view(r: Option<ResourceReport>) -> Option<ResourceReportView> {
    match r {
        Some(x) => Some(x@),
        None => None,
    }
}

/// A copy of an optional report.
pub fn copy_opt_report(r: &Option<ResourceReport>) -> (c: Option<ResourceReport>)
    ensures
        opt_report_view(c) == opt_report_view(*r),
{
    match r {
        Some(x) => Some(x.duplicate()),
        None => None,
    }
}

/// An agent announcing itself to the hub.
#[derive(Debug)]
pub struct RegisterRequest {
    pub agent_id: String,
    pub agent_url: String,
}

/// An agent's periodic report to the hub.
#[derive(Debug)]
pub struct HeartBeatRequest {
    pub agent_id: String,
    pub resources: Option<ResourceReport>,
}

/// A request to start a container.
#[derive(Debug)]
pub struct StartSessionRequest {
    pub image: String,
    pub requires_gpu: Option<bool>,
    pub cmd: Option<Vec<String>>,
}

/// A started session and the container that runs it.
#[derive(Debug)]
pub struct StartSessionResponse {
    pub session_id: String,
    pub container_id: String,
}

/// A request to stop a session.
#[derive(Debug)]
pub struct StopSessionRequest {
    pub session_id: String,
}

/// The answer to a stop request.
#[derive(Debug)]
pub struct StopSessionResponse {
    pub stopped: bool,
}

/// A running session as listed.
#[derive(Debug)]
pub struct SessionView {
    pub session_id: String,
    pub container_id: String,
    pub created_at: Timestamp,
    pub uptime_secs: i64,
}

/// All running sessions, oldest first.
#[derive(Debug)]
pub struct ListSessionsResponse {
    pub sessions: Vec<SessionView>,
}

/// A control message sent as text over a terminal connection.
#[derive(Debug, Clone, Copy, PartialEq, Eq, Structural)]
pub enum ControlMsg {
    Resize { cols: u16, rows: u16 },
}

} // verus!
