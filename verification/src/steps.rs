//! The decisions of the workflows that alternate requests and waiting:
//! each is a step from a state and what just happened to the next state
//! and what to do next. The caller performs the action and reports back.

use vstd::prelude::*;
use crate::cli::CheckMode;

verus! {

/// What to make of an answer that the client reads in a loop: wait for the
/// `Retry-After` time and ask again, give up on a failed answer, or take it.
#[derive(Debug, Clone, Copy, PartialEq, Eq, Structural)]
pub enum ResponseStep {
    WaitAndRetry,
    Fail,
    Accept,
}

/// A positive `Retry-After` header comes first; then a failed status fails;
/// else the answer is taken.
pub fn response_step(retry_after: bool, success: bool) -> (r: ResponseStep)
    ensures
        r == if retry_after {
            ResponseStep::WaitAndRetry
        } else if !success {
            ResponseStep::Fail
        } else {
            ResponseStep::Accept
        },
{
    if retry_after {
        ResponseStep::WaitAndRetry
    } else if !success {
        ResponseStep::Fail
    } else {
        ResponseStep::Accept
    }
}

/// How many times a submission is posted at most.
pub const MAX_SUBMIT_POSTS: u32 = 5;

/// Where a submission stands.
#[derive(Debug, Clone, Copy, PartialEq, Eq, Structural)]
pub enum SubmitState {
    /// Posting the submission; `attempts` posts were sent so far.
    Posting { attempts: u32 },
    /// Reading the submission's result.
    Polling,
    /// Waiting before ending with `status`.
    Finishing { status: u16 },
    /// Ended with `status`.
    Finished { status: u16 },
}

/// What just happened to a submission.
#[derive(Debug, Clone, Copy, PartialEq, Eq, Structural)]
pub enum SubmitEvent {
    /// The submission begins.
    Start,
    /// A post was answered with `status`.
    Posted { status: u16 },
    /// A read of the result was answered with `status`, with or without a
    /// positive `Retry-After` header.
    Polled { status: u16, retry_after: bool },
    /// The requested wait is over.
    Slept,
}

/// What to do next for a submission.
#[derive(Debug, Clone, Copy, PartialEq, Eq, Structural)]
pub enum SubmitAction {
    /// Post the submission.
    Post,
    /// Read the submission's result.
    Get,
    /// Wait this many seconds.
    Sleep { seconds: u64 },
    /// Wait as long as the `Retry-After` header said.
    SleepRetryAfter,
    /// End with this status.
    Finish { status: u16 },
}

/// One step of a submission. Posts are sent while fewer than five were
/// sent; an answer of 201 or 400 moves on to reading the result, 403 ends
/// with 403, and any other answer waits three seconds before the next post.
/// After five posts the result is read anyway. A result of 200 with a
/// `Retry-After` header waits and reads again; 200, 403 and 404 end with
/// that status; 429 waits ten minutes and ends with 429; any other status
/// ends with it. An event that does not answer the last action is taken
/// as the end of a wait, and an ended submission stays ended.
pub open spec fn submit_step(state: SubmitState, event: SubmitEvent) -> (SubmitState, SubmitAction) {
    match state {
        SubmitState::Posting { attempts } => match event {
            SubmitEvent::Posted { status } => if status == 201 || status == 400 {
                (SubmitState::Polling, SubmitAction::Get)
            } else if status == 403 {
                (SubmitState::Finished { status: 403 }, SubmitAction::Finish { status: 403 })
            } else {
                (state, SubmitAction::Sleep { seconds: 3 })
            },
            _ => if attempts < MAX_SUBMIT_POSTS {
                (SubmitState::Posting { attempts: (attempts + 1) as u32 }, SubmitAction::Post)
            } else {
                (SubmitState::Polling, SubmitAction::Get)
            },
        },
        SubmitState::Polling => match event {
            SubmitEvent::Polled { status, retry_after } => if status == 200 && retry_after {
                (SubmitState::Polling, SubmitAction::SleepRetryAfter)
            } else if status == 429 {
                (SubmitState::Finishing { status: 429 }, SubmitAction::Sleep { seconds: 600 })
            } else {
                (SubmitState::Finished { status }, SubmitAction::Finish { status })
            },
            _ => (SubmitState::Polling, SubmitAction::Get),
        },
        SubmitState::Finishing { status } => (SubmitState::Finished { status }, SubmitAction::Finish { status }),
        SubmitState::Finished { status } => (state, SubmitAction::Finish { status }),
    }
}

/// A submission that has sent no post yet.
pub open spec fn submit_initial() -> SubmitState {
    SubmitState::Posting { attempts: 0 }
}

/// A state that a submission can be in: never more than five posts sent.
pub open spec fn submit_state_ok(state: SubmitState) -> bool {
    match state {
        SubmitState::Posting { attempts } => attempts <= MAX_SUBMIT_POSTS,
        _ => true,
    }
}

/// The next state of a submission and what to do.
pub fn submit_next(state: SubmitState, event: SubmitEvent) -> (r: (SubmitState, SubmitAction))
    ensures
        r == submit_step(state, event),
{
    match state {
        SubmitState::Posting { attempts } => match event {
            SubmitEvent::Posted { status } => if status == 201 || status == 400 {
                (SubmitState::Polling, SubmitAction::Get)
            } else if status == 403 {
                (SubmitState::Finished { status: 403 }, SubmitAction::Finish { status: 403 })
            } else {
                (state, SubmitAction::Sleep { seconds: 3 })
            },
            _ => if attempts < MAX_SUBMIT_POSTS {
                (SubmitState::Posting { attempts: attempts + 1 }, SubmitAction::Post)
            } else {
                (SubmitState::Polling, SubmitAction::Get)
            },
        },
        SubmitState::Polling => match event {
            SubmitEvent::Polled { status, retry_after } => if status == 200 && retry_after {
                (SubmitState::Polling, SubmitAction::SleepRetryAfter)
            } else if status == 429 {
                (SubmitState::Finishing { status: 429 }, SubmitAction::Sleep { seconds: 600 })
            } else {
                (SubmitState::Finished { status }, SubmitAction::Finish { status })
            },
            _ => (SubmitState::Polling, SubmitAction::Get),
        },
        SubmitState::Finishing { status } => (SubmitState::Finished { status }, SubmitAction::Finish { status }),
        SubmitState::Finished { status } => (state, SubmitAction::Finish { status }),
    }
}

/// A run of a submission from its start over the events `events`: the
/// state it reaches and the actions it issued.
pub open spec fn submit_run(events: Seq<SubmitEvent>) -> (SubmitState, Seq<SubmitAction>)
    decreases events.len(),
{
    if events.len() == 0 {
        (submit_initial(), Seq::empty())
    } else {
        let prev = submit_run(events.drop_last());
        let next = submit_step(prev.0, events.last());
        (next.0, prev.1.push(next.1))
    }
}

/// The number of posts among some actions.
pub open spec fn posts(actions: Seq<SubmitAction>) -> nat
    decreases actions.len(),
{
    if actions.len() == 0 {
        0
    } else {
        posts(actions.drop_last()) + if actions.last() is Post {
            1nat
        } else {
            0nat
        }
    }
}

/// A submission posts at most five times, whatever the answers: in any run,
/// the posts issued are no more than five, and while it is still posting
/// they are exactly the attempts it counts.
pub proof fn lemma_submit_posts_at_most_five(events: Seq<SubmitEvent>)
    ensures
        posts(submit_run(events).1) <= MAX_SUBMIT_POSTS,
        submit_state_ok(submit_run(events).0),
        match submit_run(events).0 {
            SubmitState::Posting { attempts } => posts(submit_run(events).1) == attempts,
            _ => true,
        },
    decreases events.len(),
{
    if events.len() > 0 {
        lemma_submit_posts_at_most_five(events.drop_last());
        let prev = submit_run(events.drop_last());
        let next = submit_step(prev.0, events.last());
        assert(prev.1.push(next.1).drop_last() =~= prev.1);
    }
}

/// A submission answered 403 to a post ends at once with 403, one answered
/// 201 or 400 moves on to reading its result, and one answered with any
/// other status (429 among them) waits three seconds and stays posting,
/// with its count of posts unchanged.
pub proof fn lemma_submit_post_answers(attempts: u32, status: u16)
    ensures
        status == 403 ==> submit_step(SubmitState::Posting { attempts }, SubmitEvent::Posted { status })
            == (SubmitState::Finished { status: 403 }, SubmitAction::Finish { status: 403 }),
        (status == 201 || status == 400) ==> submit_step(
            SubmitState::Posting { attempts },
            SubmitEvent::Posted { status },
        ) == (SubmitState::Polling, SubmitAction::Get),
        (status != 201 && status != 400 && status != 403) ==> submit_step(
            SubmitState::Posting { attempts },
            SubmitEvent::Posted { status },
        ) == (SubmitState::Posting { attempts }, SubmitAction::Sleep { seconds: 3 }),
{
}

/// A submission that starts, or whose wait is over, while posting sends
/// the next post if fewer than five were sent, and reads the result
/// otherwise.
pub proof fn lemma_submit_next_post(attempts: u32, event: SubmitEvent)
    requires
        event == SubmitEvent::Start || event == SubmitEvent::Slept,
    ensures
        attempts < 5 ==> submit_step(SubmitState::Posting { attempts }, event)
            == (SubmitState::Posting { attempts: (attempts + 1) as u32 }, SubmitAction::Post),
        attempts >= 5 ==> submit_step(SubmitState::Posting { attempts }, event)
            == (SubmitState::Polling, SubmitAction::Get),
{
}

/// Reading the result: 200 with a `Retry-After` header waits as the header
/// says and reads again; 429 waits six hundred seconds and then ends with
/// 429; any other answer ends with its status; the end of a wait reads
/// again. A submission waiting to end ends with the status it waited on,
/// and an ended one stays ended with its status.
pub proof fn lemma_submit_poll_answers(status: u16, retry_after: bool, event: SubmitEvent, ended: u16)
    ensures
        (status == 200 && retry_after) ==> submit_step(
            SubmitState::Polling,
            SubmitEvent::Polled { status, retry_after },
        ) == (SubmitState::Polling, SubmitAction::SleepRetryAfter),
        status == 429 ==> submit_step(SubmitState::Polling, SubmitEvent::Polled { status, retry_after })
            == (SubmitState::Finishing { status: 429 }, SubmitAction::Sleep { seconds: 600 }),
        (!(status == 200 && retry_after) && status != 429) ==> submit_step(
            SubmitState::Polling,
            SubmitEvent::Polled { status, retry_after },
        ) == (SubmitState::Finished { status }, SubmitAction::Finish { status }),
        submit_step(SubmitState::Polling, SubmitEvent::Slept) == (SubmitState::Polling, SubmitAction::Get),
        submit_step(SubmitState::Finishing { status: ended }, event) == (
            SubmitState::Finished { status: ended },
            SubmitAction::Finish { status: ended },
        ),
        submit_step(SubmitState::Finished { status: ended }, event) == (
            SubmitState::Finished { status: ended },
            SubmitAction::Finish { status: ended },
        ),
{
}

/// What was just learnt about the alpha under check.
#[derive(Debug, Clone, Copy, PartialEq, Eq, Structural)]
pub enum CheckEvent {
    /// Whether its id is in the record of checked alphas.
    Recorded { checked: bool },
    /// Whether its largest self-correlation reaches the threshold.
    SelfCorrelation { too_high: bool },
    /// Whether its largest production correlation is above the threshold.
    ProdCorrelation { too_high: bool },
}

/// What to do next for the alpha under check.
#[derive(Debug, Clone, Copy, PartialEq, Eq, Structural)]
pub enum CheckAction {
    /// It was checked before: leave it.
    Skip,
    /// Fetch its self-correlations.
    FetchSelfCorrelation,
    /// Fetch its production correlations.
    FetchProdCorrelation,
    /// Record it as checked and mark it red.
    Reject,
    /// Record it as submitable, mark it green and report it.
    Accept,
}

/// One step of checking an alpha: an alpha checked before is skipped; one
/// whose self-correlation is too high is rejected; in consultant mode its
/// production correlation is fetched next and it is rejected when that is
/// too high; any other alpha is accepted.
pub open spec fn check_step(mode: CheckMode, event: CheckEvent) -> CheckAction {
    match event {
        CheckEvent::Recorded { checked } => if checked {
            CheckAction::Skip
        } else {
            CheckAction::FetchSelfCorrelation
        },
        CheckEvent::SelfCorrelation { too_high } => if too_high {
            CheckAction::Reject
        } else if mode == CheckMode::Consultant {
            CheckAction::FetchProdCorrelation
        } else {
            CheckAction::Accept
        },
        CheckEvent::ProdCorrelation { too_high } => if too_high {
            CheckAction::Reject
        } else {
            CheckAction::Accept
        },
    }
}

/// What to do next for an alpha under check, given what was just learnt.
pub fn check_next(mode: CheckMode, event: CheckEvent) -> (r: CheckAction)
    ensures
        r == check_step(mode, event),
{
    match event {
        CheckEvent::Recorded { checked } => if checked {
            CheckAction::Skip
        } else {
            CheckAction::FetchSelfCorrelation
        },
        CheckEvent::SelfCorrelation { too_high } => if too_high {
            CheckAction::Reject
        } else {
            match mode {
                CheckMode::Consultant => CheckAction::FetchProdCorrelation,
                CheckMode::User => CheckAction::Accept,
            }
        },
        CheckEvent::ProdCorrelation { too_high } => if too_high {
            CheckAction::Reject
        } else {
            CheckAction::Accept
        },
    }
}

/// The color an alpha is marked with: red when rejected, green when
/// accepted.
pub open spec fn check_color(action: CheckAction) -> Option<Seq<char>> {
    match action {
        CheckAction::Reject => Some("RED"@),
        CheckAction::Accept => Some("GREEN"@),
        _ => None,
    }
}

/// The color to mark an alpha with after an action, if any.
pub fn action_color(action: CheckAction) -> (r: Option<&'static str>)
    ensures
        match r {
            Some(c) => check_color(action) == Some(c@),
            None => check_color(action) is None,
        },
{
    proof {
        reveal_strlit("RED");
        reveal_strlit("GREEN");
    }
    match action {
        CheckAction::Reject => Some("RED"),
        CheckAction::Accept => Some("GREEN"),
        _ => None,
    }
}

/// What each check decides, in every mode: an alpha found in the record of
/// checked alphas is skipped, and only such an alpha; one not found there
/// has its self-correlation fetched; it is rejected exactly when a
/// correlation came back too high; the production correlation is fetched
/// exactly in consultant mode after a self-correlation that was not too
/// high; and it is accepted exactly when the last correlation it needs was
/// not too high.
pub proof fn lemma_check_decisions(mode: CheckMode, event: CheckEvent)
    ensures
        check_step(mode, CheckEvent::Recorded { checked: true }) == CheckAction::Skip,
        check_step(mode, CheckEvent::Recorded { checked: false }) == CheckAction::FetchSelfCorrelation,
        (check_step(mode, event) == CheckAction::Skip) <==> (event == CheckEvent::Recorded { checked: true }),
        (check_step(mode, event) == CheckAction::FetchSelfCorrelation) <==> (event
            == CheckEvent::Recorded { checked: false }),
        (check_step(mode, event) == CheckAction::Reject) <==> (event == CheckEvent::SelfCorrelation {
            too_high: true,
        } || event == CheckEvent::ProdCorrelation { too_high: true }),
        (check_step(mode, event) == CheckAction::FetchProdCorrelation) <==> (mode == CheckMode::Consultant
            && event == CheckEvent::SelfCorrelation { too_high: false }),
        (check_step(mode, event) == CheckAction::Accept) <==> (event == CheckEvent::ProdCorrelation {
            too_high: false,
        } || (mode == CheckMode::User && event == CheckEvent::SelfCorrelation { too_high: false })),
{
}

/// An alpha is marked red exactly when a correlation came back too high,
/// green exactly when it is accepted, and a skipped alpha, or one still
/// waiting for a correlation, is not marked at all.
pub proof fn lemma_check_colors(mode: CheckMode, event: CheckEvent)
    ensures
        (check_color(check_step(mode, event)) == Some("RED"@)) <==> (event == CheckEvent::SelfCorrelation {
            too_high: true,
        } || event == CheckEvent::ProdCorrelation { too_high: true }),
        (check_color(check_step(mode, event)) == Some("GREEN"@)) <==> (event == CheckEvent::ProdCorrelation {
            too_high: false,
        } || (mode == CheckMode::User && event == CheckEvent::SelfCorrelation { too_high: false })),
        event is Recorded ==> check_color(check_step(mode, event)) is None,
{
    reveal_strlit("RED");
    reveal_strlit("GREEN");
    assert("RED"@ != "GREEN"@) by {
        assert("RED"@.len() != "GREEN"@.len());
    }
    lemma_check_decisions(mode, event);
}

/// In user mode the production correlation is never fetched, and an alpha
/// whose self-correlation is too high is never accepted.
pub proof fn lemma_check_user_mode(event: CheckEvent)
    ensures
        check_step(CheckMode::User, event) != CheckAction::FetchProdCorrelation,
        event == (CheckEvent::SelfCorrelation { too_high: true }) ==> check_step(CheckMode::User, event)
            == CheckAction::Reject,
{
}

} // verus!
