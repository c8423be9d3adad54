//! Which events of a request are answered, and with what.

use vstd::prelude::*;

use crate::events::{Event, EventView, Events, Message, MessageView};
use crate::text::{
    contains, contains_pattern, forwarded_prompt, lemma_remove_all_single, occurs_at, prompt_of,
    trim,
};

verus! {

/// What is to be done for an event that carries the trigger: the prompt to
/// complete, and the token under which the completion is sent back.
#[derive(Debug, PartialEq, Eq)]
pub struct Job {
    pub reply_token: String,
    pub prompt: String,
}

/// The mathematical value of a [`Job`].
pub struct JobView {
    pub reply_token: Seq<char>,
    pub prompt: Seq<char>,
}

impl View for Job {
    type V = JobView;

    open spec fn view(&self) -> JobView {
        JobView { reply_token: self.reply_token@, prompt: self.prompt@ }
    }
}

/// The values of a run of jobs.
pub open spec fn job_views(jobs: Seq<Job>) -> Seq<JobView> {
    Seq::new(jobs.len(), |i: int| jobs[i]@)
}

/// The job that an event gives rise to: one for a text message whose text
/// holds the trigger, none for anything else.
pub open spec fn job_of(event: EventView, trigger: Seq<char>) -> Option<JobView> {
    match event {
        EventView::Message { reply_token, message: MessageView::Text { text } } => if contains(
            text,
            trigger,
        ) {
            Some(JobView { reply_token, prompt: prompt_of(text, trigger) })
        } else {
            None
        },
        _ => None,
    }
}

/// The jobs that a run of events gives rise to, in the order of the events.
pub open spec fn jobs_of(events: Seq<EventView>, trigger: Seq<char>) -> Seq<JobView>
    decreases events.len(),
{
    if events.len() == 0 {
        seq![]
    } else {
        jobs_of(events.drop_last(), trigger) + match job_of(events.last(), trigger) {
            Some(job) => seq![job],
            None => seq![],
        }
    }
}

/// For a text message whose text holds the trigger exactly once, at `at`, the
/// prompt that is forwarded is the text before the trigger followed by the
/// text after it, trimmed at both ends.
pub proof fn lemma_single_trigger_prompt(
    reply_token: Seq<char>,
    text: Seq<char>,
    trigger: Seq<char>,
    at: int,
)
    requires
        occurs_at(text, trigger, at),
        forall|other: int| occurs_at(text, trigger, other) ==> other == at,
    ensures
        job_of(
            EventView::Message { reply_token, message: MessageView::Text { text } },
            trigger,
        ) == Some(
            JobView {
                reply_token,
                prompt: trim(text.subrange(0, at) + text.skip(at + trigger.len())),
            },
        ),
{
    lemma_remove_all_single(text, trigger, at);
}

/// The jobs of two runs of events, one after the other, are the jobs of the
/// first followed by those of the second: each event is judged by itself, and
/// the order of the events is kept.
pub proof fn lemma_jobs_of_concat(first: Seq<EventView>, second: Seq<EventView>, trigger: Seq<char>)
    ensures
        jobs_of(first + second, trigger) == jobs_of(first, trigger) + jobs_of(second, trigger),
    decreases second.len(),
{
    if second.len() == 0 {
        assert(first + second =~= first);
        assert(jobs_of(first, trigger) + jobs_of(second, trigger) =~= jobs_of(first, trigger));
    } else {
        let all = first + second;
        assert(all.drop_last() =~= first + second.drop_last());
        assert(all.last() == second.last());
        lemma_jobs_of_concat(first, second.drop_last(), trigger);
        let tail = match job_of(second.last(), trigger) {
            Some(job) => seq![job],
            None => seq![],
        };
        assert(jobs_of(first, trigger) + (jobs_of(second.drop_last(), trigger) + tail) =~= (
        jobs_of(first, trigger) + jobs_of(second.drop_last(), trigger)) + tail);
    }
}

/// Where no event gives rise to a job, there are no jobs.
pub proof fn lemma_jobs_of_none(events: Seq<EventView>, trigger: Seq<char>)
    requires
        forall|i: int| 0 <= i < events.len() ==> job_of(#[trigger] events[i], trigger) is None,
    ensures
        jobs_of(events, trigger) == Seq::<JobView>::empty(),
    decreases events.len(),
{
    if events.len() > 0 {
        assert(job_of(events[events.len() - 1], trigger) is None);
        lemma_jobs_of_none(events.drop_last(), trigger);
    }
}

/// Every job stems from an event: a text message whose text holds the
/// trigger, with that event's reply token and the prompt made of its text.
pub proof fn lemma_job_origin(events: Seq<EventView>, trigger: Seq<char>, k: int)
    requires
        0 <= k < jobs_of(events, trigger).len(),
    ensures
        exists|i: int|
            0 <= i < events.len() && job_of(#[trigger] events[i], trigger) == Some(
                jobs_of(events, trigger)[k],
            ),
    decreases events.len(),
{
    if events.len() > 0 {
        let before = jobs_of(events.drop_last(), trigger);
        if k < before.len() {
            lemma_job_origin(events.drop_last(), trigger, k);
            let i = choose|i: int|
                0 <= i < events.drop_last().len() && job_of(
                    #[trigger] events.drop_last()[i],
                    trigger,
                ) == Some(before[k]);
            assert(events[i] == events.drop_last()[i]);
        } else {
            assert(job_of(events[events.len() - 1], trigger) == Some(jobs_of(events, trigger)[k]));
        }
    }
}

/// The jobs for the events of a request, in the order of the events.
pub fn dispatch(payload: &Events, trigger: &str) -> (jobs: Vec<Job>)
    ensures
        job_views(jobs@) == jobs_of(payload@, trigger@),
{
    let n = payload.events.len();
    let mut jobs: Vec<Job> = Vec::new();
    let mut i: usize = 0;
    assert(payload@.take(0) =~= Seq::<EventView>::empty());
    assert(job_views(jobs@) =~= Seq::<JobView>::empty());
    while i < n
        invariant
            n == payload.events@.len(),
            i <= n,
            job_views(jobs@) == jobs_of(payload@.take(i as int), trigger@),
        decreases n - i,
    {
        let ghost before = job_views(jobs@);
        proof {
            assert(payload@.take(i + 1).drop_last() =~= payload@.take(i as int));
            assert(payload@.take(i + 1).last() == payload.events@[i as int]@);
        }
        match &payload.events[i] {
            Event::Message { reply_token, message: Message::Text { text } } => {
                if contains_pattern(text.as_str(), trigger) {
                    let prompt = forwarded_prompt(text.as_str(), trigger);
                    jobs.push(Job { reply_token: reply_token.clone(), prompt });
                    assert(job_views(jobs@) =~= before + seq![jobs@[jobs@.len() - 1]@]);
                } else {
                    assert(job_views(jobs@) =~= before + Seq::<JobView>::empty());
                }
            },
            _ => {
                assert(job_views(jobs@) =~= before + Seq::<JobView>::empty());
            },
        }
        i += 1;
    }
    assert(payload@.take(n as int) =~= payload@);
    jobs
}

} // verus!
