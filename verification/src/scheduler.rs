//! Scheduled jobs: when they are due, what they ask, and where the answer goes.
use vstd::prelude::*;

use crate::agent::{AgentRequest, Attachment, RequestView};
use crate::channels::{OutboundMessage, OutboundView};
use crate::database::jobs::{Job, JobView};
use crate::text::{cat, owned};
use crate::value::{lemma_lookup_push, no_fields, Fields, Json};

verus! {

/// Whether a job is due: its time has come, or it has a schedule and no time is
/// set and it has never run.
pub open spec fn due(job: JobView, now: i64) -> bool {
    match job.next_run_at {
        Some(at) => now >= at,
        None => job.last_run_at is None && job.schedule.len() > 0,
    }
}

/// Whether a job is due.
pub fn is_due(job: &Job, now: i64) -> (r: bool)
    ensures
        r == due(job@, now),
{
    match job.next_run_at {
        Some(at) => now >= at,
        None => job.last_run_at.is_none() && !job.schedule.as_str().is_empty(),
    }
}

/// What an agent is asked for a job.
pub open spec fn job_request(job: JobView) -> RequestView {
    RequestView {
        agent_id: job.agent_id,
        session_id: "cron:"@ + job.id,
        channel: match job.target_channel {
            Some(c) => c,
            None => "internal"@,
        },
        peer_id: match job.target_peer {
            Some(p) => p,
            None => "scheduler"@,
        },
        content: job.prompt,
        attachments: seq![],
        run_id: None,
        model_profile: None,
        cancel_token: None,
    }
}

/// What an agent is asked for a job.
pub fn request_for(job: &Job) -> (r: AgentRequest)
    ensures
        r@ == job_request(job@),
{
    let attachments: Vec<Attachment> = Vec::new();
    proof {
        assert(attachments@ =~= seq![]);
    }
    AgentRequest {
        agent_id: job.agent_id.clone(),
        session_id: cat("cron:", job.id.as_str()),
        channel: match &job.target_channel {
            Some(c) => c.clone(),
            None => owned("internal"),
        },
        peer_id: match &job.target_peer {
            Some(p) => p.clone(),
            None => owned("scheduler"),
        },
        content: job.prompt.clone(),
        attachments,
        run_id: None,
        model_profile: None,
        cancel_token: None,
    }
}

/// The message by which the answer to a job is delivered, where the job names a
/// channel and a peer.
pub open spec fn delivery(job: JobView, text: Seq<char>) -> Option<OutboundView> {
    match (job.target_channel, job.target_peer) {
        (Some(channel), Some(target)) => Some(
            OutboundView {
                channel,
                target,
                reply_to: None,
                text,
                attachments: seq![],
                metadata: Json::Table(
                    no_fields().push(("source"@, Json::Str("scheduler"@))).push(
                        ("job_id"@, Json::Str(job.id)),
                    ),
                ),
            },
        ),
        _ => None,
    }
}

/// The message by which the answer to a job is delivered.
pub fn delivery_for(job: &Job, text: &str) -> (r: Option<OutboundMessage>)
    ensures
        match delivery(job@, text@) {
            Some(m) => r is Some && r->0@ == m,
            None => r is None,
        },
{
    match (&job.target_channel, &job.target_peer) {
        (Some(channel), Some(peer)) => {
            let mut f = Fields::new();
            f.put_str("source", "scheduler");
            f.put_str("job_id", job.id.as_str());
            let attachments: Vec<Attachment> = Vec::new();
            proof {
                assert(attachments@ =~= seq![]);
            }
            Some(
                OutboundMessage {
                    channel: channel.clone(),
                    target: peer.clone(),
                    reply_to: None,
                    text: owned(text),
                    attachments,
                    metadata: f.done(),
                },
            )
        },
        _ => None,
    }
}

/// A job without a time that has run once is never due again.
pub proof fn untimed_jobs_run_once(job: JobView, ran_at: i64, now: i64)
    requires
        job.next_run_at is None,
    ensures
        !due(JobView { last_run_at: Some(ran_at), ..job }, now),
{
}

/// The names of the fields of a delivery differ.
proof fn lemma_delivery_names()
    ensures
        "source"@ != "job_id"@,
{
    reveal_strlit("source");
    reveal_strlit("job_id");
    assert("source"@.len() == 6);
    assert("job_id"@.len() == 6);
    assert("source"@[0] == 's' && "job_id"@[0] == 'j');
}


/// A job is due from the time that is set for it on, and not before; one without a time
/// only where it has a schedule and has never run.
pub proof fn jobs_are_due_from_their_time_on(job: JobView, now: i64)
    ensures
        job.next_run_at matches Some(at) ==> (due(job, now) <==> now >= at),
        job.next_run_at is None ==> (due(job, now) <==> job.schedule.len() > 0 && job.last_run_at
            is None),
        forall|later: i64| later >= now && due(job, now) ==> #[trigger] due(job, later),
{
}

/// A job asks its agent what it was made to ask, for the channel and the peer that it
/// names; and where it names them, the answer goes there, and is stored with what that
/// peer wrote.
pub proof fn jobs_ask_and_deliver(job: JobView, text: Seq<char>)
    ensures
        job_request(job).agent_id == job.agent_id,
        job_request(job).content == job.prompt,
        job_request(job).session_id == "cron:"@ + job.id,
        job.target_channel matches Some(c) ==> job_request(job).channel == c,
        job.target_peer matches Some(p) ==> job_request(job).peer_id == p,
        job.target_channel is None ==> job_request(job).channel == "internal"@,
        job.target_peer is None ==> job_request(job).peer_id == "scheduler"@,
        delivery(job, text) is Some <==> job.target_channel is Some && job.target_peer is Some,
        delivery(job, text) matches Some(m) ==> Some(m.channel) == job.target_channel && Some(
            m.target,
        ) == job.target_peer && m.text == text && m.reply_to is None && m.attachments.len() == 0
            && m.metadata.at("source"@) == Json::Str("scheduler"@) && m.metadata.at("job_id"@)
            == Json::Str(job.id),
{
    broadcast use lemma_lookup_push;

    lemma_delivery_names();
}

} // verus!
