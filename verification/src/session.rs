//! The exchange with the completion and reply services that answers the
//! events of one request, step by step.

use vstd::prelude::*;

use crate::completion::{
    candidates_of, request_for, text_views, CompletionRequest, CompletionRequestView,
    CompletionResponse, GatewayFailure,
};
use crate::dispatch::{job_views, Job, JobView};
use crate::messages::{
    message_views, SendMessageType, SendMessageView, TextMessage, TextMessageView,
};
use crate::text::{trim, trimmed};

verus! {

/// The status of a response to a request that was handled in full.
pub const STATUS_OK: u16 = 200;

/// The status of a response to a body that was not decoded.
pub const STATUS_BAD_REQUEST: u16 = 400;

/// The status of a response to a request without a valid signature.
pub const STATUS_UNAUTHORIZED: u16 = 401;

/// The status of a response to a request during which a service failed.
pub const STATUS_INTERNAL_SERVER_ERROR: u16 = 500;

/// What the host of the relay is to do next.
#[derive(Debug, PartialEq, Eq)]
pub enum Action {
    /// Ask the completion service, and report what it answered.
    Complete(CompletionRequest),
    /// Send these messages under this reply token, and report how it went.
    Reply { reply_token: String, messages: Vec<SendMessageType> },
    /// Answer the webhook request with this status and an empty body. The
    /// request is done.
    Respond(u16),
}

/// The mathematical value of an [`Action`].
pub enum ActionView {
    Complete(CompletionRequestView),
    Reply { reply_token: Seq<char>, messages: Seq<SendMessageView> },
    Respond(u16),
}

impl View for Action {
    type V = ActionView;

    open spec fn view(&self) -> ActionView {
        match self {
            Action::Complete(request) => ActionView::Complete(request@),
            Action::Reply { reply_token, messages } => ActionView::Reply {
                reply_token: reply_token@,
                messages: message_views(messages@),
            },
            Action::Respond(status) => ActionView::Respond(*status),
        }
    }
}

/// Where the handling of a request stands.
#[derive(Debug, Clone, Copy, PartialEq, Eq, Structural)]
pub enum Phase {
    /// A completion was asked for and is awaited.
    Completing,
    /// A reply was sent and its outcome is awaited.
    Replying,
    /// The response was given.
    Responded,
}

/// The handling of one request: the jobs, how far they are done, and whether
/// a service failed on the way.
#[derive(Debug)]
pub struct Session {
    jobs: Vec<Job>,
    job: usize,
    candidates: Vec<String>,
    candidate: usize,
    failed: bool,
    phase: Phase,
    max_tokens: Option<i32>,
    temperature_milli: Option<u32>,
}

/// The mathematical value of a [`Session`]: the jobs of the request; the job
/// in hand; the candidate texts that the completion service gave for it, and
/// the one that is being sent; whether a service has failed; the phase; and
/// the configured limit and temperature.
pub struct SessionView {
    pub jobs: Seq<JobView>,
    pub job: nat,
    pub candidates: Seq<Seq<char>>,
    pub candidate: nat,
    pub failed: bool,
    pub phase: Phase,
    pub max_tokens: Option<i32>,
    pub temperature_milli: Option<u32>,
}

/// The status that ends a request whose body was decoded: an error where a
/// service failed for any of its events.
pub open spec fn final_status(failed: bool) -> u16 {
    if failed {
        STATUS_INTERNAL_SERVER_ERROR
    } else {
        STATUS_OK
    }
}

/// The message that carries a candidate text back: the text, trimmed.
pub open spec fn reply_to(candidate: Seq<char>) -> SendMessageView {
    SendMessageView::TextMessage(TextMessageView { text: trim(candidate), emojis: None })
}

impl SessionView {
    /// A session that has nothing to do.
    pub open spec fn idle(max_tokens: Option<i32>, temperature_milli: Option<u32>) -> SessionView {
        SessionView {
            jobs: seq![],
            job: 0,
            candidates: seq![],
            candidate: 0,
            failed: false,
            phase: Phase::Responded,
            max_tokens,
            temperature_milli,
        }
    }

    /// How the handling of jobs begins: the first job is turned to, or, where
    /// there is none, the response is given.
    pub open spec fn begin(
        jobs: Seq<JobView>,
        max_tokens: Option<i32>,
        temperature_milli: Option<u32>,
    ) -> (SessionView, ActionView) {
        (SessionView { jobs, ..SessionView::idle(max_tokens, temperature_milli) }).turn_to(0, false)
    }

    /// Turns to the job `job`: asks for its completion, or, where the jobs are
    /// through, responds.
    pub open spec fn turn_to(self, job: nat, failed: bool) -> (SessionView, ActionView) {
        if job < self.jobs.len() {
            (
                SessionView {
                    job,
                    candidates: seq![],
                    candidate: 0,
                    failed,
                    phase: Phase::Completing,
                    ..self
                },
                ActionView::Complete(
                    request_for(
                        self.jobs[job as int].prompt,
                        self.max_tokens,
                        self.temperature_milli,
                    ),
                ),
            )
        } else {
            (
                SessionView {
                    job: self.jobs.len(),
                    candidates: seq![],
                    candidate: 0,
                    failed,
                    phase: Phase::Responded,
                    ..self
                },
                ActionView::Respond(final_status(failed)),
            )
        }
    }

    /// Sends the candidate `candidate` of `candidates` in reply to the job in
    /// hand.
    pub open spec fn send(self, candidates: Seq<Seq<char>>, candidate: nat) -> (
        SessionView,
        ActionView,
    ) {
        (
            SessionView { candidates, candidate, phase: Phase::Replying, ..self },
            ActionView::Reply {
                reply_token: self.jobs[self.job as int].reply_token,
                messages: seq![reply_to(candidates[candidate as int])],
            },
        )
    }

    /// What follows the outcome of a call for a completion. A failure marks
    /// the request as failed and ends the job; so does, without the mark, an
    /// answer without candidates. Else the first candidate is sent.
    pub open spec fn after_completion(self, result: Result<Seq<Seq<char>>, GatewayFailure>) -> (
        SessionView,
        ActionView,
    ) {
        match result {
            Err(_) => self.turn_to(self.job + 1, true),
            Ok(candidates) => if candidates.len() == 0 {
                self.turn_to(self.job + 1, self.failed)
            } else {
                self.send(candidates, 0)
            },
        }
    }

    /// What follows the outcome of a reply. A failure marks the request as
    /// failed and ends the job. Else the next candidate is sent, or, after
    /// the last one, the job ends.
    pub open spec fn after_reply(self, result: Result<(), GatewayFailure>) -> (
        SessionView,
        ActionView,
    ) {
        match result {
            Err(_) => self.turn_to(self.job + 1, true),
            Ok(_) => if self.candidate + 1 < self.candidates.len() {
                self.send(self.candidates, self.candidate + 1)
            } else {
                self.turn_to(self.job + 1, self.failed)
            },
        }
    }
}

/// What a step leads to, seen from the job `job` that was in hand before it:
/// a reply for that job; or the call for the completion of the job after it;
/// or, after the last job, the response. No job is passed over, and none is
/// taken up twice.
pub open spec fn follows(next: (SessionView, ActionView), before: SessionView) -> bool {
    let (session, action) = next;
    &&& session.jobs == before.jobs
    &&& session.max_tokens == before.max_tokens
    &&& session.temperature_milli == before.temperature_milli
    &&& match action {
        ActionView::Reply { reply_token, messages } => {
            &&& session.phase == Phase::Replying
            &&& session.job == before.job
            &&& session.candidate < session.candidates.len()
            &&& reply_token == before.jobs[before.job as int].reply_token
            &&& messages == seq![reply_to(session.candidates[session.candidate as int])]
        },
        ActionView::Complete(request) => {
            &&& session.phase == Phase::Completing
            &&& session.job == before.job + 1
            &&& session.job < session.jobs.len()
            &&& request == request_for(
                session.jobs[session.job as int].prompt,
                session.max_tokens,
                session.temperature_milli,
            )
        },
        ActionView::Respond(status) => {
            &&& session.phase == Phase::Responded
            &&& before.job + 1 == before.jobs.len()
            &&& session.job == session.jobs.len()
            &&& status == final_status(session.failed)
        },
    }
}

/// Each outcome brings a request nearer to its response: after it the same
/// job is in hand and a candidate is sent, a later one than before; or the
/// job after it; or the request is done.
pub proof fn lemma_outcome_advances(
    session: SessionView,
    completion: Result<Seq<Seq<char>>, GatewayFailure>,
    reply: Result<(), GatewayFailure>,
)
    requires
        session.job < session.jobs.len(),
    ensures
        follows(session.after_completion(completion), session),
        follows(session.after_reply(reply), session),
        session.after_reply(reply).1 is Reply ==> session.after_reply(reply).0.candidates
            == session.candidates && session.after_reply(reply).0.candidate == session.candidate
            + 1,
{
}

/// A failure of a service is not forgotten: after each outcome the request
/// counts as failed exactly if it did before or the outcome is a failure; and
/// the response that ends it is an error exactly if it counts as failed.
pub proof fn lemma_failure_marks_request(
    session: SessionView,
    completion: Result<Seq<Seq<char>>, GatewayFailure>,
    reply: Result<(), GatewayFailure>,
)
    ensures
        session.after_completion(completion).0.failed == (session.failed || completion is Err),
        session.after_reply(reply).0.failed == (session.failed || reply is Err),
        session.after_completion(completion).1 matches ActionView::Respond(status) ==> status
            == final_status(session.failed || completion is Err),
        session.after_reply(reply).1 matches ActionView::Respond(status) ==> status
            == final_status(session.failed || reply is Err),
{
}

/// What the host reports of a call that it was asked for.
pub enum Outcome {
    /// What a call for a completion brought.
    Completion(Result<Seq<Seq<char>>, GatewayFailure>),
    /// How a reply went.
    Reply(Result<(), GatewayFailure>),
}

impl Outcome {
    /// The call failed.
    pub open spec fn is_failure(self) -> bool {
        match self {
            Outcome::Completion(result) => result is Err,
            Outcome::Reply(result) => result is Err,
        }
    }
}

impl SessionView {
    /// The session is about a job of its own, and in the phase of sending
    /// about a candidate that it has.
    pub open spec fn in_hand(self) -> bool {
        &&& self.job < self.jobs.len()
        &&& self.phase != Phase::Responded
        &&& self.phase == Phase::Replying ==> self.candidate < self.candidates.len()
    }

    /// The outcome is of the call that the session awaits.
    pub open spec fn awaits(self, outcome: Outcome) -> bool {
        match outcome {
            Outcome::Completion(_) => self.phase == Phase::Completing,
            Outcome::Reply(_) => self.phase == Phase::Replying,
        }
    }

    /// What follows an outcome.
    pub open spec fn after(self, outcome: Outcome) -> (SessionView, ActionView) {
        match outcome {
            Outcome::Completion(result) => self.after_completion(result),
            Outcome::Reply(result) => self.after_reply(result),
        }
    }

    /// Where a run of outcomes leads, and the actions that are asked for on
    /// the way, one after each outcome; or `None` where an outcome is of a
    /// call that is not awaited.
    pub open spec fn run(self, outcomes: Seq<Outcome>) -> Option<(SessionView, Seq<ActionView>)>
        decreases outcomes.len(),
    {
        if outcomes.len() == 0 {
            Some((self, seq![]))
        } else if !self.awaits(outcomes[0]) {
            None
        } else {
            match self.after(outcomes[0]).0.run(outcomes.skip(1)) {
                Some((last, actions)) => Some((last, seq![self.after(outcomes[0]).1] + actions)),
                None => None,
            }
        }
    }
}

impl SessionView {
    /// Where a run of outcomes leads.
    pub open spec fn reaches(self, outcomes: Seq<Outcome>) -> SessionView {
        match self.run(outcomes) {
            Some((last, _)) => last,
            None => self,
        }
    }

    /// The actions that are asked for in a run of outcomes, one after each.
    pub open spec fn asks(self, outcomes: Seq<Outcome>) -> Seq<ActionView> {
        match self.run(outcomes) {
            Some((_, actions)) => actions,
            None => seq![],
        }
    }
}

/// One of the outcomes is a failure.
pub open spec fn any_failure(outcomes: Seq<Outcome>) -> bool {
    exists|i: int| 0 <= i < outcomes.len() && (#[trigger] outcomes[i]).is_failure()
}

/// The requests for completions among a run of actions, in their order.
pub open spec fn completions(actions: Seq<ActionView>) -> Seq<CompletionRequestView>
    decreases actions.len(),
{
    if actions.len() == 0 {
        seq![]
    } else {
        let first = match actions[0] {
            ActionView::Complete(request) => seq![request],
            _ => seq![],
        };
        first + completions(actions.skip(1))
    }
}

/// The requests for the completions of the jobs from `from` on, in their
/// order.
pub open spec fn requests_from(session: SessionView, from: nat) -> Seq<CompletionRequestView> {
    Seq::new(
        (session.jobs.len() - from) as nat,
        |i: int|
            request_for(
                session.jobs[from + i].prompt,
                session.max_tokens,
                session.temperature_milli,
            ),
    )
}

/// A request that is handled to its end asks for the completion of each job
/// that is left, once, in the order of the jobs, whatever the outcomes are;
/// and it ends on the response, which is an error exactly if the request had
/// failed before or one of the outcomes is a failure.
pub proof fn lemma_run_to_the_end(session: SessionView, outcomes: Seq<Outcome>)
    requires
        session.in_hand(),
        session.run(outcomes) is Some,
        session.reaches(outcomes).phase == Phase::Responded,
    ensures
        completions(session.asks(outcomes)) == requests_from(session, session.job + 1),
        outcomes.len() > 0,
        session.asks(outcomes).last() == ActionView::Respond(
            final_status(session.failed || any_failure(outcomes)),
        ),
    decreases outcomes.len(),
{
    let first = outcomes[0];
    let rest = outcomes.skip(1);
    let (next, action) = session.after(first);
    let actions = next.asks(rest);
    let all = seq![action] + actions;
    assert(session.asks(outcomes) == all);
    assert(all[0] == action);
    assert(all.skip(1) =~= actions);
    let head = match action {
        ActionView::Complete(request) => seq![request],
        _ => seq![],
    };
    assert(completions(all) == head + completions(actions));
    match first {
        Outcome::Completion(result) => {
            lemma_failure_marks_request(session, result, Ok(()));
            lemma_outcome_advances(session, result, Ok(()));
        },
        Outcome::Reply(result) => {
            lemma_failure_marks_request(session, Ok(seq![]), result);
            lemma_outcome_advances(session, Ok(seq![]), result);
        },
    }
    assert(follows((next, action), session));
    assert(next.failed == (session.failed || first.is_failure()));
    if next.phase == Phase::Responded {
        assert(rest.len() == 0);
        assert(actions =~= Seq::<ActionView>::empty());
        assert(completions(actions) =~= Seq::<CompletionRequestView>::empty());
        assert(all.last() == action);
        assert(head + completions(actions) =~= Seq::<CompletionRequestView>::empty());
        assert(requests_from(session, session.job + 1) =~= Seq::<CompletionRequestView>::empty());
        assert(any_failure(outcomes) == first.is_failure()) by {
            if any_failure(outcomes) {
                let i = choose|i: int|
                    0 <= i < outcomes.len() && (#[trigger] outcomes[i]).is_failure();
                assert(i == 0);
            }
        }
    } else {
        assert(next.in_hand());
        lemma_run_to_the_end(next, rest);
        assert(all.last() == actions.last());
        assert(any_failure(outcomes) == (first.is_failure() || any_failure(rest))) by {
            if any_failure(outcomes) {
                let i = choose|i: int|
                    0 <= i < outcomes.len() && (#[trigger] outcomes[i]).is_failure();
                if i > 0 {
                    assert(rest[i - 1] == outcomes[i]);
                }
            }
            if any_failure(rest) {
                let i = choose|i: int| 0 <= i < rest.len() && (#[trigger] rest[i]).is_failure();
                assert(outcomes[i + 1] == rest[i]);
            }
        }
        assert(requests_from(session, session.job + 1) =~= head + requests_from(
            next,
            next.job + 1,
        ));
    }
}

/// Jobs that are handled from the first to the response are each asked for
/// once, in their order, whatever the outcomes are; and the response is an
/// error exactly if one of the outcomes is a failure.
pub proof fn lemma_jobs_to_the_end(
    jobs: Seq<JobView>,
    max_tokens: Option<i32>,
    temperature_milli: Option<u32>,
    outcomes: Seq<Outcome>,
)
    requires
        ({
            let (session, first) = SessionView::begin(jobs, max_tokens, temperature_milli);
            &&& session.run(outcomes) is Some
            &&& session.reaches(outcomes).phase == Phase::Responded
        }),
    ensures
        ({
            let (session, first) = SessionView::begin(jobs, max_tokens, temperature_milli);
            let actions = seq![first] + session.asks(outcomes);
            &&& completions(actions) == requests_from(session, 0)
            &&& actions.last() == ActionView::Respond(final_status(any_failure(outcomes)))
        }),
{
    let (session, first) = SessionView::begin(jobs, max_tokens, temperature_milli);
    let later = session.asks(outcomes);
    let actions = seq![first] + later;
    assert(actions[0] == first);
    assert(actions.skip(1) =~= later);
    let head = match first {
        ActionView::Complete(request) => seq![request],
        _ => seq![],
    };
    assert(completions(actions) == head + completions(later));
    if jobs.len() == 0 {
        assert(outcomes.len() == 0);
        assert(later =~= Seq::<ActionView>::empty());
        assert(completions(later) =~= Seq::<CompletionRequestView>::empty());
        assert(head + completions(later) =~= Seq::<CompletionRequestView>::empty());
        assert(requests_from(session, 0) =~= Seq::<CompletionRequestView>::empty());
        assert(!any_failure(outcomes));
    } else {
        assert(session.in_hand());
        lemma_run_to_the_end(session, outcomes);
        assert(actions.last() == later.last());
        assert(requests_from(session, 0) =~= head + requests_from(session, 1));
    }
}

impl View for Session {
    type V = SessionView;

    closed spec fn view(&self) -> SessionView {
        SessionView {
            jobs: job_views(self.jobs@),
            job: self.job as nat,
            candidates: text_views(self.candidates@),
            candidate: self.candidate as nat,
            failed: self.failed,
            phase: self.phase,
            max_tokens: self.max_tokens,
            temperature_milli: self.temperature_milli,
        }
    }
}

impl Session {
    #[verifier::type_invariant]
    spec fn well_formed(&self) -> bool {
        match self.phase {
            Phase::Completing => {
                &&& self.job < self.jobs.len()
                &&& self.candidates.len() == 0
                &&& self.candidate == 0
            },
            Phase::Replying => {
                &&& self.job < self.jobs.len()
                &&& self.candidate < self.candidates.len()
            },
            Phase::Responded => {
                &&& self.job == self.jobs.len()
                &&& self.candidates.len() == 0
                &&& self.candidate == 0
            },
        }
    }

    /// Where the handling stands.
    pub fn phase(&self) -> (phase: Phase)
        ensures
            phase == self@.phase,
    {
        self.phase
    }

    /// A session that has nothing to do.
    pub fn idle(max_tokens: Option<i32>, temperature_milli: Option<u32>) -> (session: Session)
        ensures
            session@ == SessionView::idle(max_tokens, temperature_milli),
    {
        let session = Session {
            jobs: Vec::new(),
            job: 0,
            candidates: Vec::new(),
            candidate: 0,
            failed: false,
            phase: Phase::Responded,
            max_tokens,
            temperature_milli,
        };
        assert(session@.jobs =~= Seq::<JobView>::empty());
        assert(session@.candidates =~= Seq::<Seq<char>>::empty());
        session
    }

    /// Begins the handling of `jobs`, and says what to do first.
    pub fn begin(
        jobs: Vec<Job>,
        max_tokens: Option<i32>,
        temperature_milli: Option<u32>,
    ) -> (next: (Session, Action))
        ensures
            (next.0@, next.1@) == SessionView::begin(
                job_views(jobs@),
                max_tokens,
                temperature_milli,
            ),
    {
        Session::turn_to(jobs, 0, false, max_tokens, temperature_milli)
    }

    /// A session with these jobs, this job in hand and this mark of failure:
    /// what the steps below start from.
    spec fn standing(
        jobs: Seq<Job>,
        job: usize,
        failed: bool,
        max_tokens: Option<i32>,
        temperature_milli: Option<u32>,
    ) -> SessionView {
        SessionView {
            jobs: job_views(jobs),
            job: job as nat,
            candidates: seq![],
            candidate: 0,
            failed,
            phase: Phase::Responded,
            max_tokens,
            temperature_milli,
        }
    }

    fn turn_to(
        jobs: Vec<Job>,
        job: usize,
        failed: bool,
        max_tokens: Option<i32>,
        temperature_milli: Option<u32>,
    ) -> (next: (Session, Action))
        ensures
            (next.0@, next.1@) == Session::standing(
                jobs@,
                job,
                failed,
                max_tokens,
                temperature_milli,
            ).turn_to(job as nat, failed),
    {
        if job < jobs.len() {
            let request = CompletionRequest::new(
                jobs[job].prompt.clone(),
                max_tokens,
                temperature_milli,
            );
            let session = Session {
                jobs,
                job,
                candidates: Vec::new(),
                candidate: 0,
                failed,
                phase: Phase::Completing,
                max_tokens,
                temperature_milli,
            };
            assert(session@.candidates =~= Seq::<Seq<char>>::empty());
            (session, Action::Complete(request))
        } else {
            let session = Session {
                job: jobs.len(),
                jobs,
                candidates: Vec::new(),
                candidate: 0,
                failed,
                phase: Phase::Responded,
                max_tokens,
                temperature_milli,
            };
            assert(session@.candidates =~= Seq::<Seq<char>>::empty());
            (session, Action::Respond(if failed {
                STATUS_INTERNAL_SERVER_ERROR
            } else {
                STATUS_OK
            }))
        }
    }

    fn send(
        jobs: Vec<Job>,
        job: usize,
        candidates: Vec<String>,
        candidate: usize,
        failed: bool,
        max_tokens: Option<i32>,
        temperature_milli: Option<u32>,
    ) -> (next: (Session, Action))
        requires
            job < jobs@.len(),
            candidate < candidates@.len(),
        ensures
            (next.0@, next.1@) == Session::standing(
                jobs@,
                job,
                failed,
                max_tokens,
                temperature_milli,
            ).send(text_views(candidates@), candidate as nat),
    {
        let text = trimmed(candidates[candidate].as_str());
        let mut messages: Vec<SendMessageType> = Vec::new();
        messages.push(SendMessageType::TextMessage(TextMessage { text, emojis: None }));
        assert(message_views(messages@) =~= seq![reply_to(candidates@[candidate as int]@)]);
        let reply_token = jobs[job].reply_token.clone();
        let session = Session {
            jobs,
            job,
            candidates,
            candidate,
            failed,
            phase: Phase::Replying,
            max_tokens,
            temperature_milli,
        };
        (session, Action::Reply { reply_token, messages })
    }

    /// Takes the outcome of the call for a completion that was asked for, and
    /// says what to do next.
    pub fn completed(self, result: Result<CompletionResponse, GatewayFailure>) -> (next: (
        Session,
        Action,
    ))
        requires
            self@.phase == Phase::Completing,
        ensures
            (next.0@, next.1@) == self@.after_completion(candidates_of(result)),
    {
        proof {
            use_type_invariant(&self);
        }
        let Session { jobs, job, failed, max_tokens, temperature_milli, .. } = self;
        match result {
            Err(_) => Session::turn_to(jobs, job + 1, true, max_tokens, temperature_milli),
            Ok(response) => {
                if response.choices.len() == 0 {
                    Session::turn_to(jobs, job + 1, failed, max_tokens, temperature_milli)
                } else {
                    Session::send(
                        jobs,
                        job,
                        response.choices,
                        0,
                        failed,
                        max_tokens,
                        temperature_milli,
                    )
                }
            },
        }
    }

    /// Takes the outcome of the reply that was sent, and says what to do
    /// next.
    pub fn replied(self, result: Result<(), GatewayFailure>) -> (next: (Session, Action))
        requires
            self@.phase == Phase::Replying,
        ensures
            (next.0@, next.1@) == self@.after_reply(result),
    {
        proof {
            use_type_invariant(&self);
        }
        let Session {
            jobs,
            job,
            candidates,
            candidate,
            failed,
            max_tokens,
            temperature_milli,
            ..
        } = self;
        match result {
            Err(_) => Session::turn_to(jobs, job + 1, true, max_tokens, temperature_milli),
            Ok(_) => {
                if candidate + 1 < candidates.len() {
                    Session::send(
                        jobs,
                        job,
                        candidates,
                        candidate + 1,
                        failed,
                        max_tokens,
                        temperature_milli,
                    )
                } else {
                    Session::turn_to(jobs, job + 1, failed, max_tokens, temperature_milli)
                }
            },
        }
    }
}

} // verus!
