//! The agent's link to the hub: register until the hub accepts, then send a
//! heartbeat with a fresh resource report every two seconds.
use vstd::prelude::*;
use crate::agent::types::{HeartBeatRequest, RegisterRequest, ResourceReport};
use crate::text::{append_str, copy_str};

verus! {

/// Seconds between attempts and between heartbeats.
pub const RETRY_SECS: u64 = 2;

/// Seconds the agent waits for the hub to answer.
pub const REQUEST_TIMEOUT_SECS: u64 = 2;

/// Where the link stands.
#[derive(Debug, Clone, Copy, PartialEq, Eq, Structural)]
pub enum LinkPhase {
    /// The hub has not accepted the registration yet.
    Registering,
    /// The hub accepted the registration; heartbeats follow.
    Registered,
}

/// What happened since the last action.
#[derive(Debug, Clone, Copy, PartialEq, Eq, Structural)]
pub enum LinkEvent {
    /// The link was just started.
    Started,
    /// The hub answered the last request with this HTTP status.
    Answered { status: u16 },
    /// The hub could not be reached.
    Unreachable,
    /// The pause is over.
    Slept,
}

/// What the agent does next.
#[derive(Debug, Clone, Copy, PartialEq, Eq, Structural)]
pub enum LinkAction {
    /// Post the registration.
    SendRegister,
    /// Collect a resource report and post a heartbeat.
    SendHeartbeat,
    /// Wait this many seconds.
    Sleep { secs: u64 },
}

/// An HTTP status in the success class (200 to 299).
pub open spec fn is_success(status: u16) -> bool {
    200 <= status <= 299
}

/// Decides `is_success`.
pub fn status_is_success(status: u16) -> (b: bool)
    ensures
        b == is_success(status),
{
    200 <= status && status <= 299
}

/// The next phase and action of the link.
pub open spec fn link_next(phase: LinkPhase, event: LinkEvent) -> (LinkPhase, LinkAction) {
    match phase {
        LinkPhase::Registering => match event {
            LinkEvent::Started => (LinkPhase::Registering, LinkAction::SendRegister),
            LinkEvent::Slept => (LinkPhase::Registering, LinkAction::SendRegister),
            LinkEvent::Answered { status } => if is_success(status) {
                (LinkPhase::Registered, LinkAction::SendHeartbeat)
            } else {
                (LinkPhase::Registering, LinkAction::Sleep { secs: RETRY_SECS })
            },
            LinkEvent::Unreachable => (LinkPhase::Registering, LinkAction::Sleep { secs: RETRY_SECS }),
        },
        LinkPhase::Registered => match event {
            LinkEvent::Started => (LinkPhase::Registered, LinkAction::SendHeartbeat),
            LinkEvent::Slept => (LinkPhase::Registered, LinkAction::SendHeartbeat),
            LinkEvent::Answered { status: _ } => (LinkPhase::Registered, LinkAction::Sleep { secs: RETRY_SECS }),
            LinkEvent::Unreachable => (LinkPhase::Registered, LinkAction::Sleep { secs: RETRY_SECS }),
        },
    }
}

/// One step of the link: from its phase and what happened, its next phase
/// and what the agent does.
pub fn hub_link_step(phase: LinkPhase, event: LinkEvent) -> (r: (LinkPhase, LinkAction))
    ensures
        r == link_next(phase, event),
{
    match phase {
        LinkPhase::Registering => match event {
            LinkEvent::Started => (LinkPhase::Registering, LinkAction::SendRegister),
            LinkEvent::Slept => (LinkPhase::Registering, LinkAction::SendRegister),
            LinkEvent::Answered { status } => if status_is_success(status) {
                (LinkPhase::Registered, LinkAction::SendHeartbeat)
            } else {
                (LinkPhase::Registering, LinkAction::Sleep { secs: RETRY_SECS })
            },
            LinkEvent::Unreachable => (LinkPhase::Registering, LinkAction::Sleep { secs: RETRY_SECS }),
        },
        LinkPhase::Registered => match event {
            LinkEvent::Started => (LinkPhase::Registered, LinkAction::SendHeartbeat),
            LinkEvent::Slept => (LinkPhase::Registered, LinkAction::SendHeartbeat),
            LinkEvent::Answered { status: _ } => (LinkPhase::Registered, LinkAction::Sleep { secs: RETRY_SECS }),
            LinkEvent::Unreachable => (LinkPhase::Registered, LinkAction::Sleep { secs: RETRY_SECS }),
        },
    }
}

/// Once registered, the link stays registered whatever happens.
pub proof fn law_registration_is_kept(event: LinkEvent)
    ensures
        link_next(LinkPhase::Registered, event).0 == LinkPhase::Registered,
{
}

/// Heartbeats are sent only by a registered link, and registrations only by
/// one that is not.
pub proof fn law_heartbeats_follow_registration(phase: LinkPhase, event: LinkEvent)
    ensures
        link_next(phase, event).1 == LinkAction::SendHeartbeat ==> link_next(phase, event).0
            == LinkPhase::Registered,
        link_next(phase, event).1 == LinkAction::SendRegister ==> phase == LinkPhase::Registering
            && link_next(phase, event).0 == LinkPhase::Registering,
{
}

/// A registering link becomes registered exactly when the hub answers with
/// success; otherwise it waits and tries again.
pub proof fn law_register_until_accepted(status: u16)
    ensures
        link_next(LinkPhase::Registering, LinkEvent::Answered { status }).0 == LinkPhase::Registered
            <==> is_success(status),
        !is_success(status) ==> link_next(LinkPhase::Registering, LinkEvent::Answered { status }).1
            == (LinkAction::Sleep { secs: RETRY_SECS }),
        link_next(LinkPhase::Registering, LinkEvent::Unreachable) == (
            LinkPhase::Registering,
            LinkAction::Sleep { secs: RETRY_SECS },
        ),
        link_next(LinkPhase::Registering, LinkEvent::Slept).1 == LinkAction::SendRegister,
{
}

/// A run of the link from `phase` through `events`: for each event in turn,
/// the phase after it and the action the agent takes.
pub open spec fn link_run(phase: LinkPhase, events: Seq<LinkEvent>) -> Seq<(LinkPhase, LinkAction)>
    decreases events.len(),
{
    if events.len() == 0 {
        Seq::empty()
    } else {
        let s = link_next(phase, events[0]);
        seq![s] + link_run(s.0, events.drop_first())
    }
}

/// The phase of the link after `events`.
pub open spec fn phase_after(phase: LinkPhase, events: Seq<LinkEvent>) -> LinkPhase
    decreases events.len(),
{
    if events.len() == 0 {
        phase
    } else {
        phase_after(link_next(phase, events[0]).0, events.drop_first())
    }
}

/// The hub accepted the last request.
pub open spec fn is_accepted(e: LinkEvent) -> bool {
    e matches LinkEvent::Answered { status } && is_success(status)
}

/// The last request failed: the hub was unreachable or refused it.
pub open spec fn is_failed_attempt(e: LinkEvent) -> bool {
    ||| e is Unreachable
    ||| (e matches LinkEvent::Answered { status } && !is_success(status))
}

/// A run has one step per event.
pub proof fn lemma_run_len(phase: LinkPhase, events: Seq<LinkEvent>)
    ensures
        link_run(phase, events).len() == events.len(),
    decreases events.len(),
{
    if events.len() > 0 {
        lemma_run_len(link_next(phase, events[0]).0, events.drop_first());
    }
}

/// A run through one event is that event's step.
proof fn lemma_run_one(phase: LinkPhase, e: LinkEvent)
    ensures
        link_run(phase, seq![e]) == seq![link_next(phase, e)],
        phase_after(phase, seq![e]) == link_next(phase, e).0,
{
    let s = link_next(phase, e);
    assert(seq![e].drop_first() =~= Seq::<LinkEvent>::empty());
    assert(link_run(s.0, Seq::<LinkEvent>::empty()) == Seq::<(LinkPhase, LinkAction)>::empty());
    assert(phase_after(s.0, Seq::<LinkEvent>::empty()) == s.0);
    assert(seq![s] + Seq::<(LinkPhase, LinkAction)>::empty() =~= seq![s]);
}

/// A run through two stretches of events is the run through the first
/// followed by the run through the second from where the first left off.
pub proof fn lemma_run_concat(phase: LinkPhase, a: Seq<LinkEvent>, b: Seq<LinkEvent>)
    ensures
        link_run(phase, a + b) == link_run(phase, a) + link_run(phase_after(phase, a), b),
        phase_after(phase, a + b) == phase_after(phase_after(phase, a), b),
    decreases a.len(),
{
    if a.len() == 0 {
        assert(a + b =~= b);
        assert(link_run(phase, a) + link_run(phase, b) =~= link_run(phase, b));
    } else {
        let s = link_next(phase, a[0]);
        assert((a + b)[0] == a[0]);
        assert((a + b).drop_first() =~= a.drop_first() + b);
        lemma_run_concat(s.0, a.drop_first(), b);
        assert(seq![s] + (link_run(s.0, a.drop_first()) + link_run(phase_after(s.0, a.drop_first()), b))
            =~= (seq![s] + link_run(s.0, a.drop_first())) + link_run(
            phase_after(s.0, a.drop_first()),
            b,
        ));
    }
}

/// Once registered, whatever happens, the link stays registered and sends a
/// heartbeat at the start and after every pause, and pauses two seconds
/// after every answer or failure: heartbeats go on for ever, whether earlier
/// ones failed or not.
pub proof fn law_heartbeats_forever(events: Seq<LinkEvent>)
    ensures
        link_run(LinkPhase::Registered, events).len() == events.len(),
        forall|i: int|
            0 <= i < events.len() ==> (#[trigger] link_run(LinkPhase::Registered, events)[i]).0
                == LinkPhase::Registered,
        forall|i: int|
            0 <= i < events.len() ==> (#[trigger] link_run(LinkPhase::Registered, events)[i]).1 == if events[i] is Started
                || events[i] is Slept {
                LinkAction::SendHeartbeat
            } else {
                LinkAction::Sleep { secs: RETRY_SECS }
            },
    decreases events.len(),
{
    lemma_run_len(LinkPhase::Registered, events);
    if events.len() > 0 {
        let rest = events.drop_first();
        law_heartbeats_forever(rest);
        let r = link_run(LinkPhase::Registered, events);
        assert forall|i: int| 1 <= i < events.len() implies r[i] == link_run(
            LinkPhase::Registered,
            rest,
        )[i - 1] && events[i] == rest[i - 1] by {}
    }
}

/// From an unregistered start, no heartbeat is sent before the hub has
/// accepted a registration, and no registration is sent once the link is
/// registered.
pub proof fn law_no_heartbeat_before_acceptance(events: Seq<LinkEvent>)
    ensures
        link_run(LinkPhase::Registering, events).len() == events.len(),
        forall|i: int|
            0 <= i < events.len() && (#[trigger] link_run(LinkPhase::Registering, events)[i]).1
                == LinkAction::SendHeartbeat ==> exists|j: int| 0 <= j <= i && is_accepted(events[j]),
        forall|i: int, j: int|
            0 <= i < j < events.len() && (#[trigger] link_run(LinkPhase::Registering, events)[i]).0
                == LinkPhase::Registered ==> (#[trigger] link_run(LinkPhase::Registering, events)[j]).1
                != LinkAction::SendRegister,
    decreases events.len(),
{
    lemma_run_len(LinkPhase::Registering, events);
    if events.len() > 0 {
        let rest = events.drop_first();
        let s = link_next(LinkPhase::Registering, events[0]);
        let r = link_run(LinkPhase::Registering, events);
        assert forall|i: int| 1 <= i < events.len() implies r[i] == link_run(s.0, rest)[i - 1]
            && events[i] == rest[i - 1] by {}
        if s.0 == LinkPhase::Registering {
            law_no_heartbeat_before_acceptance(rest);
            assert forall|i: int|
                0 <= i < events.len() && (#[trigger] r[i]).1 == LinkAction::SendHeartbeat implies exists|
                j: int,
            | 0 <= j <= i && is_accepted(events[j]) by {
                if i > 0 {
                    assert(link_run(LinkPhase::Registering, rest)[i - 1].1 == LinkAction::SendHeartbeat);
                    let k = choose|k: int| 0 <= k <= i - 1 && is_accepted(rest[k]);
                    assert(events[k + 1] == rest[k]);
                }
            }
            assert forall|i: int, j: int|
                0 <= i < j < events.len() && (#[trigger] r[i]).0 == LinkPhase::Registered implies (#[trigger] r[j]).1
                != LinkAction::SendRegister by {
                if i > 0 {
                    assert(link_run(LinkPhase::Registering, rest)[i - 1].0 == LinkPhase::Registered);
                    assert(link_run(LinkPhase::Registering, rest)[j - 1] == r[j]);
                }
            }
        } else {
            assert(is_accepted(events[0]));
            law_heartbeats_forever(rest);
            assert forall|i: int, j: int|
                0 <= i < j < events.len() && (#[trigger] r[i]).0 == LinkPhase::Registered implies (#[trigger] r[j]).1
                != LinkAction::SendRegister by {
                assert(link_run(LinkPhase::Registered, rest)[j - 1] == r[j]);
            }
        }
    }
}

/// The events of a registration that fails on its first attempts and is
/// then accepted: the start, then each failure followed by the pause, then
/// the accepting answer.
pub open spec fn failed_retries(fails: Seq<LinkEvent>) -> Seq<LinkEvent>
    decreases fails.len(),
{
    if fails.len() == 0 {
        Seq::empty()
    } else {
        seq![fails[0], LinkEvent::Slept] + failed_retries(fails.drop_first())
    }
}

/// The steps of `n` failed attempts after the first: a pause, then a new
/// registration, each time.
pub open spec fn retry_steps(n: nat) -> Seq<(LinkPhase, LinkAction)>
    decreases n,
{
    if n == 0 {
        Seq::empty()
    } else {
        seq![
            (LinkPhase::Registering, LinkAction::Sleep { secs: RETRY_SECS }),
            (LinkPhase::Registering, LinkAction::SendRegister),
        ] + retry_steps((n - 1) as nat)
    }
}

proof fn lemma_failed_retries_run(fails: Seq<LinkEvent>)
    requires
        forall|i: int| 0 <= i < fails.len() ==> is_failed_attempt(#[trigger] fails[i]),
    ensures
        link_run(LinkPhase::Registering, failed_retries(fails)) == retry_steps(fails.len()),
        phase_after(LinkPhase::Registering, failed_retries(fails)) == LinkPhase::Registering,
    decreases fails.len(),
{
    if fails.len() > 0 {
        let tail = fails.drop_first();
        assert forall|i: int| 0 <= i < tail.len() implies is_failed_attempt(#[trigger] tail[i]) by {
            assert(tail[i] == fails[i + 1]);
        }
        lemma_failed_retries_run(tail);
        let two = seq![fails[0], LinkEvent::Slept];
        assert(is_failed_attempt(fails[0]));
        lemma_run_concat(LinkPhase::Registering, two, failed_retries(tail));
        assert(two =~= seq![fails[0]] + seq![LinkEvent::Slept]);
        lemma_run_one(LinkPhase::Registering, fails[0]);
        lemma_run_one(LinkPhase::Registering, LinkEvent::Slept);
        lemma_run_concat(LinkPhase::Registering, seq![fails[0]], seq![LinkEvent::Slept]);
        assert(link_run(LinkPhase::Registering, two) =~= seq![
            (LinkPhase::Registering, LinkAction::Sleep { secs: RETRY_SECS }),
            (LinkPhase::Registering, LinkAction::SendRegister),
        ]);
    }
}

proof fn lemma_retry_steps_index(n: nat)
    ensures
        retry_steps(n).len() == 2 * n,
        forall|i: int|
            0 <= i < 2 * n ==> #[trigger] retry_steps(n)[i] == if i % 2 == 0 {
                (LinkPhase::Registering, LinkAction::Sleep { secs: RETRY_SECS })
            } else {
                (LinkPhase::Registering, LinkAction::SendRegister)
            },
    decreases n,
{
    if n > 0 {
        lemma_retry_steps_index((n - 1) as nat);
        let t = retry_steps((n - 1) as nat);
        assert forall|i: int| 2 <= i < 2 * n implies #[trigger] retry_steps(n)[i] == t[i - 2] by {}
    }
}

/// A registration whose first `fails.len()` attempts fail (the hub
/// unreachable or refusing) and whose next attempt is accepted: exactly
/// `fails.len() + 1` registrations are sent, each after a two-second pause
/// but the first, and then heartbeats begin; no heartbeat comes earlier.
pub proof fn law_register_attempts(fails: Seq<LinkEvent>, ok: u16)
    requires
        forall|i: int| 0 <= i < fails.len() ==> is_failed_attempt(#[trigger] fails[i]),
        is_success(ok),
    ensures
        ({
            let events = seq![LinkEvent::Started] + failed_retries(fails) + seq![
                LinkEvent::Answered { status: ok },
            ];
            let r = link_run(LinkPhase::Registering, events);
            let n = fails.len() as int;
            &&& r.len() == 2 * n + 2
            &&& forall|i: int|
                0 <= i <= 2 * n ==> (#[trigger] r[i]).0 == LinkPhase::Registering && r[i].1 == if i
                    % 2 == 0 {
                    LinkAction::SendRegister
                } else {
                    LinkAction::Sleep { secs: RETRY_SECS }
                }
            &&& r[2 * n + 1] == (LinkPhase::Registered, LinkAction::SendHeartbeat)
        }),
{
    let start = seq![LinkEvent::Started];
    let mid = failed_retries(fails);
    let last = seq![LinkEvent::Answered { status: ok }];
    lemma_failed_retries_run(fails);
    lemma_retry_steps_index(fails.len());
    lemma_run_concat(LinkPhase::Registering, start, mid);
    lemma_run_concat(LinkPhase::Registering, start + mid, last);
    lemma_run_one(LinkPhase::Registering, LinkEvent::Started);
    lemma_run_one(LinkPhase::Registering, LinkEvent::Answered { status: ok });
    assert(link_run(LinkPhase::Registering, start) =~= seq![
        (LinkPhase::Registering, LinkAction::SendRegister),
    ]);
    assert(link_run(LinkPhase::Registering, last) =~= seq![
        (LinkPhase::Registered, LinkAction::SendHeartbeat),
    ]);
    let r = link_run(LinkPhase::Registering, start + mid + last);
    let steps = retry_steps(fails.len());
    assert(r =~= seq![(LinkPhase::Registering, LinkAction::SendRegister)] + steps + seq![
        (LinkPhase::Registered, LinkAction::SendHeartbeat),
    ]);
    assert forall|i: int| 1 <= i <= 2 * fails.len() implies #[trigger] r[i] == steps[i - 1] by {}
}

/// `base` followed by `path`.
pub fn join_url(base: &str, path: &str) -> (r: String)
    ensures
        r@ == base@ + path@,
{
    let mut r = copy_str(base);
    append_str(&mut r, path);
    r
}

/// Where the hub takes registrations.
pub fn register_url(hub_url: &str) -> (r: String)
    ensures
        r@ == hub_url@ + "/v1/agents/register"@,
{
    join_url(hub_url, "/v1/agents/register")
}

/// Where the hub takes heartbeats.
pub fn heartbeat_url(hub_url: &str) -> (r: String)
    ensures
        r@ == hub_url@ + "/v1/agents/heartbeat"@,
{
    join_url(hub_url, "/v1/agents/heartbeat")
}

/// The registration of this agent.
pub fn register_request(agent_id: &str, agent_url: &str) -> (r: RegisterRequest)
    ensures
        r.agent_id@ == agent_id@,
        r.agent_url@ == agent_url@,
{
    RegisterRequest { agent_id: copy_str(agent_id), agent_url: copy_str(agent_url) }
}

/// A heartbeat carrying `report`.
pub fn heartbeat_request(agent_id: &str, report: ResourceReport) -> (r: HeartBeatRequest)
    ensures
        r.agent_id@ == agent_id@,
        r.resources == Some(report),
{
    HeartBeatRequest { agent_id: copy_str(agent_id), resources: Some(report) }
}

} // verus!
