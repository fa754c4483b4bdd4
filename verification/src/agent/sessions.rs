//! Container sessions on an agent: starting them with Docker, stopping them,
//! and listing them.
use vstd::prelude::*;
use crate::agent::types::{
    ListSessionsResponse, SessionView, StartSessionRequest, StartSessionResponse,
    StopSessionRequest, StopSessionResponse,
};
use crate::error::{ApiError, ErrorKind};
use crate::keyed::KeyedVec;
use crate::order::{lists, order_by_time};
use crate::text::{append_str, copy_str, copy_strings, strings_view, trim, trimmed};
use crate::time::{clamp_i64, elapsed_secs, whole_seconds_between, Timestamp};

verus! {

/// How a command that the platform runs went.
#[derive(Debug)]
pub enum CommandOutcome {
    /// The command could not be started; `error` says why.
    NotRun { error: String },
    /// The command ran; its exit status was a success or not, and it printed
    /// `stdout` and `stderr`.
    Finished { success: bool, stdout: String, stderr: String },
}

/// A session's container and when the session started.
#[derive(Debug)]
pub struct SessionInfo {
    pub container_id: String,
    pub created_at: Timestamp,
}

/// The content of a `SessionInfo`.
pub struct SessionInfoView {
    pub container_id: Seq<char>,
    pub created_at: Timestamp,
}

impl View for SessionInfo {
    type V = SessionInfoView;

    open spec fn view(&self) -> SessionInfoView {
        SessionInfoView { container_id: self.container_id@, created_at: self.created_at }
    }
}

/// The sessions that run on this agent, by session id.
pub struct SessionStore {
    pub sessions: KeyedVec<SessionInfo>,
}

impl SessionStore {
    /// The store is consistent.
    pub open spec fn wf(&self) -> bool {
        self.sessions.wf()
    }

    /// The sessions by id.
    pub open spec fn view(&self) -> Map<Seq<char>, SessionInfoView> {
        self.sessions@.map_values(|i: SessionInfo| i@)
    }

    /// A store with no session.
    pub fn new() -> (s: SessionStore)
        ensures
            s.wf(),
            s@ == Map::<Seq<char>, SessionInfoView>::empty(),
    {
        let s = SessionStore { sessions: KeyedVec::new() };
        assert(s@ =~= Map::<Seq<char>, SessionInfoView>::empty());
        s
    }
}

/// A lowercase hexadecimal digit.
pub open spec fn is_lower_hex(c: char) -> bool {
    (48 <= (c as u32) <= 57) || (97 <= (c as u32) <= 102)
}

/// The hyphenated lowercase text of a random (version 4) UUID, such as
/// `67e55044-10b1-426f-9247-bb680e5fe0c8`: 36 characters, hyphens at
/// positions 8, 13, 18 and 23, hexadecimal digits elsewhere, the version
/// digit `4` at position 14 and one of `8`, `9`, `a`, `b` at position 19.
pub open spec fn is_random_uuid_text(s: Seq<char>) -> bool {
    &&& s.len() == 36
    &&& forall|i: int|
        0 <= i < 36 ==> (if i == 8 || i == 13 || i == 18 || i == 23 {
            s[i] == '-'
        } else {
            is_lower_hex(#[trigger] s[i])
        })
    &&& s[14] == '4'
    &&& (s[19] == '8' || s[19] == '9' || s[19] == 'a' || s[19] == 'b')
}

/// A fresh session id: the text of `uuid::Uuid::new_v4()`. Each call draws a
/// new random value; what is stated is the form of the text only.
#[verifier::external_body]
fn new_session_id() -> (id: String)
    ensures
        is_random_uuid_text(id@),
{
    uuid::Uuid::new_v4().to_string()
}

/// The command a session runs when the request names none.
pub open spec fn default_command() -> Seq<Seq<char>> {
    seq!["sh"@, "-lc"@, "sleep 360000"@]
}

/// The command that a start request asks for.
pub open spec fn requested_command(cmd: Option<Vec<String>>) -> Seq<Seq<char>> {
    match cmd {
        Some(c) => strings_view(c@),
        None => default_command(),
    }
}

/// Whether a start request asks for GPUs (no answer means no).
pub open spec fn wants_gpu(requires_gpu: Option<bool>) -> bool {
    match requires_gpu {
        Some(b) => b,
        None => false,
    }
}

/// The arguments of `docker` that start a session: a detached container
/// named `sc-` and the session id, with all GPUs when asked for, running
/// the image and then the command.
pub open spec fn run_args(id: Seq<char>, image: Seq<char>, gpu: bool, cmd: Seq<Seq<char>>) -> Seq<
    Seq<char>,
> {
    seq!["run"@, "-d"@, "--name"@, "sc-"@ + id] + (if gpu {
        seq!["--gpus"@, "all"@]
    } else {
        Seq::empty()
    }) + seq![image] + cmd
}

/// The `docker` arguments that start the session `session_id` for `req`.
pub fn docker_run_args(session_id: &str, req: &StartSessionRequest) -> (r: Vec<String>)
    ensures
        strings_view(r@) == run_args(
            session_id@,
            req.image@,
            wants_gpu(req.requires_gpu),
            requested_command(req.cmd),
        ),
{
    let mut args: Vec<String> = Vec::new();
    args.push(copy_str("run"));
    args.push(copy_str("-d"));
    args.push(copy_str("--name"));
    let mut name = copy_str("sc-");
    append_str(&mut name, session_id);
    args.push(name);
    let gpu = match req.requires_gpu {
        Some(b) => b,
        None => false,
    };
    if gpu {
        args.push(copy_str("--gpus"));
        args.push(copy_str("all"));
    }
    args.push(req.image.clone());
    let ghost head = strings_view(args@);
    let mut cmd: Vec<String> = Vec::new();
    match &req.cmd {
        Some(c) => {
            cmd = copy_strings(c);
        },
        None => {
            cmd.push(copy_str("sh"));
            cmd.push(copy_str("-lc"));
            cmd.push(copy_str("sleep 360000"));
            assert(strings_view(cmd@) =~= default_command());
        },
    }
    let mut k: usize = 0;
    let ghost cmd_view = strings_view(cmd@);
    while k < cmd.len()
        invariant
            k <= cmd.len(),
            cmd_view == strings_view(cmd@),
            strings_view(args@) == head + cmd_view.take(k as int),
        decreases cmd.len() - k,
    {
        let ghost before = strings_view(args@);
        args.push(cmd[k].clone());
        assert(strings_view(args@) =~= before.push(cmd_view[k as int]));
        assert(cmd_view.take(k + 1) =~= cmd_view.take(k as int).push(cmd_view[k as int]));
        assert(strings_view(args@) =~= head + cmd_view.take(k + 1));
        k = k + 1;
    }
    assert(cmd_view.take(cmd.len() as int) =~= cmd_view);
    assert(strings_view(args@) =~= run_args(
        session_id@,
        req.image@,
        wants_gpu(req.requires_gpu),
        requested_command(req.cmd),
    ));
    args
}

/// A session about to start: its new id and the `docker` arguments that
/// start it.
#[derive(Debug)]
pub struct StartPlan {
    pub session_id: String,
    pub args: Vec<String>,
}

/// Begins starting a session for `req`: draws a fresh session id and gives
/// the `docker` arguments that start its container.
pub fn start_session(req: &StartSessionRequest) -> (plan: StartPlan)
    ensures
        is_random_uuid_text(plan.session_id@),
        strings_view(plan.args@) == run_args(
            plan.session_id@,
            req.image@,
            wants_gpu(req.requires_gpu),
            requested_command(req.cmd),
        ),
{
    let session_id = new_session_id();
    let args = docker_run_args(session_id.as_str(), req);
    StartPlan { session_id, args }
}

/// Completes starting session `session_id` once `docker run` has gone as
/// `outcome` says: when it ran and succeeded, the session is recorded with
/// the container id that it printed (trimmed) and the start time `now`.
pub fn finish_start(
    store: &mut SessionStore,
    session_id: String,
    outcome: CommandOutcome,
    now: Timestamp,
) -> (r: Result<StartSessionResponse, ApiError>)
    requires
        old(store).wf(),
    ensures
        final(store).wf(),
        match outcome {
            CommandOutcome::NotRun { error } => r matches Err(e) && e.kind
                == ErrorKind::InternalServerError && e.message@ == "failed to run docker: "@
                + error@ && final(store)@ == old(store)@,
            CommandOutcome::Finished { success, stdout, stderr } => if !success {
                r matches Err(e) && e.kind == ErrorKind::BadRequest && e.message@
                    == "docker run failed: "@ + stderr@ && final(store)@ == old(store)@
            } else {
                r matches Ok(resp) && resp.session_id@ == session_id@ && resp.container_id@ == trim(
                    stdout@,
                ) && final(store)@ == old(store)@.insert(
                    session_id@,
                    SessionInfoView { container_id: trim(stdout@), created_at: now },
                )
            },
        },
{
    match outcome {
        CommandOutcome::NotRun { error } => Err(
            ApiError::with_detail(
                ErrorKind::InternalServerError,
                "failed to run docker: ",
                error.as_str(),
            ),
        ),
        CommandOutcome::Finished { success, stdout, stderr } => {
            if !success {
                return Err(
                    ApiError::with_detail(
                        ErrorKind::BadRequest,
                        "docker run failed: ",
                        stderr.as_str(),
                    ),
                );
            }
            let container_id = trimmed(stdout.as_str());
            let info = SessionInfo { container_id: container_id.clone(), created_at: now };
            let ghost info_view = info@;
            store.sessions.insert(session_id.clone(), info);
            proof {
                assert(final(store)@ =~= old(store)@.insert(session_id@, info_view));
            }
            Ok(StartSessionResponse { session_id, container_id })
        },
    }
}

/// A session being stopped: what was recorded of it and the `docker`
/// arguments that remove its container.
#[derive(Debug)]
pub struct StopPlan {
    pub info: SessionInfo,
    pub args: Vec<String>,
}

/// Begins stopping the session that `req` names: it is taken out of the
/// store, and its container is to be removed with the given arguments.
pub fn stop_session(store: &mut SessionStore, req: &StopSessionRequest) -> (r: Result<
    StopPlan,
    ApiError,
>)
    requires
        old(store).wf(),
    ensures
        final(store).wf(),
        final(store)@ == old(store)@.remove(req.session_id@),
        match r {
            Ok(plan) => old(store)@.contains_key(req.session_id@) && plan.info@ == old(
                store,
            )@[req.session_id@] && strings_view(plan.args@) == seq![
                "rm"@,
                "-f"@,
                plan.info.container_id@,
            ],
            Err(e) => !old(store)@.contains_key(req.session_id@) && e.kind == ErrorKind::NotFound
                && e.message@ == "unknown session_id"@,
        },
{
    let removed = store.sessions.remove(&req.session_id);
    proof {
        assert(final(store)@ =~= old(store)@.remove(req.session_id@));
    }
    match removed {
        None => Err(ApiError::new(ErrorKind::NotFound, "unknown session_id")),
        Some(info) => {
            let mut args: Vec<String> = Vec::new();
            args.push(copy_str("rm"));
            args.push(copy_str("-f"));
            args.push(info.container_id.clone());
            assert(strings_view(args@) =~= seq!["rm"@, "-f"@, info.container_id@]);
            Ok(StopPlan { info, args })
        },
    }
}

/// Completes stopping a session once `docker rm -f` has gone as `outcome`
/// says.
pub fn finish_stop(outcome: CommandOutcome) -> (r: Result<StopSessionResponse, ApiError>)
    ensures
        match outcome {
            CommandOutcome::NotRun { error } => r matches Err(e) && e.kind
                == ErrorKind::InternalServerError && e.message@ == "failed to stop docker: "@
                + error@,
            CommandOutcome::Finished { success, stdout: _, stderr } => if !success {
                r matches Err(e) && e.kind == ErrorKind::BadRequest && e.message@
                    == "docker rm -f failed: "@ + stderr@
            } else {
                r matches Ok(resp) && resp.stopped
            },
        },
{
    match outcome {
        CommandOutcome::NotRun { error } => Err(
            ApiError::with_detail(
                ErrorKind::InternalServerError,
                "failed to stop docker: ",
                error.as_str(),
            ),
        ),
        CommandOutcome::Finished { success, stdout: _, stderr } => {
            if !success {
                Err(
                    ApiError::with_detail(
                        ErrorKind::BadRequest,
                        "docker rm -f failed: ",
                        stderr.as_str(),
                    ),
                )
            } else {
                Ok(StopSessionResponse { stopped: true })
            }
        },
    }
}

/// A listed session shows the recorded session `key` as it stands at `now`.
pub open spec fn shows_session(
    v: SessionView,
    store: Map<Seq<char>, SessionInfoView>,
    now: Timestamp,
) -> bool {
    let k = v.session_id@;
    &&& store.contains_key(k)
    &&& v.container_id@ == store[k].container_id
    &&& v.created_at == store[k].created_at
    &&& v.uptime_secs == clamp_i64(whole_seconds_between(now, store[k].created_at))
}

/// The sessions of the store, oldest first, with the whole seconds each has
/// been up at `now`.
pub fn list_sessions(store: &SessionStore, now: Timestamp) -> (r: ListSessionsResponse)
    requires
        store.wf(),
    ensures
        r.sessions@.len() == store@.dom().len(),
        forall|i: int| 0 <= i < r.sessions@.len() ==> shows_session(#[trigger] r.sessions@[i], store@, now),
        forall|k: Seq<char>| #[trigger]
            store@.contains_key(k) ==> exists|i: int|
                0 <= i < r.sessions@.len() && r.sessions@[i].session_id@ == k,
        forall|a: int, b: int|
            0 <= a < b < r.sessions@.len() ==> r.sessions@[a].created_at.not_after(
                r.sessions@[b].created_at,
            ),
{
    proof {
        store.sessions.lemma_layout();
    }
    let n = store.sessions.len();
    let mut times: Vec<Timestamp> = Vec::new();
    let mut i: usize = 0;
    while i < n
        invariant
            i <= n == store.sessions.keys().len() == store.sessions.values().len(),
            store.wf(),
            times.len() == i,
            forall|j: int| 0 <= j < i ==> #[trigger] times@[j] == store.sessions.values()[j].created_at,
        decreases n - i,
    {
        times.push(store.sessions.value_at(i).created_at);
        i = i + 1;
    }
    let order = order_by_time(&times);
    let mut out: Vec<SessionView> = Vec::new();
    let mut j: usize = 0;
    while j < n
        invariant
            j <= n == store.sessions.keys().len() == times.len() == order.len(),
            n == store.sessions.values().len(),
            store.wf(),
            crate::order::is_arrangement(order@, n as nat),
            forall|a: int| 0 <= a < n ==> #[trigger] times@[a] == store.sessions.values()[a].created_at,
            forall|a: int, b: int|
                0 <= a < b < order.len() ==> times@[order@[a] as int].not_after(
                    times@[order@[b] as int],
                ),
            out.len() == j,
            forall|a: int| 0 <= a < j ==> #[trigger] out@[a].session_id@ == store.sessions.keys()[order@[a] as int],
            forall|a: int| 0 <= a < j ==> shows_session(#[trigger] out@[a], store@, now),
            forall|a: int| 0 <= a < j ==> (#[trigger] out@[a]).created_at == times@[order@[a] as int],
            forall|k: int|
                0 <= k < n ==> store.sessions@.contains_key(#[trigger] store.sessions.keys()[k])
                    && store.sessions@[store.sessions.keys()[k]] == store.sessions.values()[k],
        decreases n - j,
    {
        let idx = order[j];
        let key = store.sessions.key_at(idx).clone();
        let info = store.sessions.value_at(idx);
        let uptime = elapsed_secs(now, info.created_at);
        out.push(
            SessionView {
                session_id: key,
                container_id: info.container_id.clone(),
                created_at: info.created_at,
                uptime_secs: uptime,
            },
        );
        j = j + 1;
    }
    proof {
        assert(store@.dom() =~= store.sessions@.dom());
        assert forall|k: Seq<char>| #[trigger] store@.contains_key(k) implies exists|i: int|
            0 <= i < out@.len() && out@[i].session_id@ == k by {
            let ki = choose|ki: int|
                0 <= ki < store.sessions.keys().len() && store.sessions.keys()[ki] == k;
            assert(lists(order@, ki));
            let a = choose|a: int| 0 <= a < order@.len() && order@[a] == ki;
            assert(out@[a].session_id@ == k);
        }
    }
    ListSessionsResponse { sessions: out }
}

/// The container that a terminal for session `session_id` attaches to.
pub fn ws_attach_terminal(store: &SessionStore, session_id: &String) -> (r: Result<String, ApiError>)
    requires
        store.wf(),
    ensures
        match r {
            Ok(c) => store@.contains_key(session_id@) && c@ == store@[session_id@].container_id,
            Err(e) => !store@.contains_key(session_id@) && e.kind == ErrorKind::NotFound
                && e.message@ == "unknown session id"@,
        },
{
    match store.sessions.get(session_id) {
        Some(info) => Ok(info.container_id.clone()),
        None => Err(ApiError::new(ErrorKind::NotFound, "unknown session id")),
    }
}

/// Starting a session under a new id and then stopping it leaves the store
/// as it was; while it runs, it is found with its container and start time.
pub proof fn law_start_then_stop(
    m: Map<Seq<char>, SessionInfoView>,
    id: Seq<char>,
    info: SessionInfoView,
)
    requires
        !m.contains_key(id),
    ensures
        m.insert(id, info).contains_key(id),
        m.insert(id, info)[id] == info,
        m.insert(id, info).remove(id) == m,
{
    assert(m.insert(id, info).remove(id) =~= m);
}

} // verus!
