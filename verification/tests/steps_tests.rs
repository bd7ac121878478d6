use alpha_rust::cli::{CheckMode, CommandKind};
use alpha_rust::steps::{
    action_color, check_next, response_step, submit_next, CheckAction, CheckEvent,
    ResponseStep, SubmitAction, SubmitEvent, SubmitState,
};

#[test]
fn reading_answers() {
    assert_eq!(response_step(true, true), ResponseStep::WaitAndRetry);
    assert_eq!(response_step(true, false), ResponseStep::WaitAndRetry);
    assert_eq!(response_step(false, false), ResponseStep::Fail);
    assert_eq!(response_step(false, true), ResponseStep::Accept);
}

#[test]
fn submission_posts_at_most_five_times() {
    let mut state = SubmitState::Posting { attempts: 0 };
    let mut event = SubmitEvent::Start;
    let mut posts = 0;
    loop {
        let (next, action) = submit_next(state, event);
        state = next;
        event = match action {
            SubmitAction::Post => {
                posts += 1;
                SubmitEvent::Posted { status: 500 }
            }
            SubmitAction::Sleep { seconds } => {
                assert_eq!(seconds, 3);
                SubmitEvent::Slept
            }
            SubmitAction::Get => SubmitEvent::Polled { status: 200, retry_after: false },
            SubmitAction::Finish { status } => {
                assert_eq!(status, 200);
                break;
            }
            SubmitAction::SleepRetryAfter => unreachable!(),
        };
    }
    assert_eq!(posts, 5);
}

#[test]
fn submission_answers() {
    let start = SubmitState::Posting { attempts: 0 };
    assert_eq!(submit_next(start, SubmitEvent::Start), (SubmitState::Posting { attempts: 1 }, SubmitAction::Post));
    let one = SubmitState::Posting { attempts: 1 };
    assert_eq!(submit_next(one, SubmitEvent::Posted { status: 403 }), (SubmitState::Finished { status: 403 }, SubmitAction::Finish { status: 403 }));
    assert_eq!(submit_next(one, SubmitEvent::Posted { status: 201 }), (SubmitState::Polling, SubmitAction::Get));
    assert_eq!(submit_next(one, SubmitEvent::Posted { status: 400 }), (SubmitState::Polling, SubmitAction::Get));
    let p = SubmitState::Polling;
    assert_eq!(submit_next(p, SubmitEvent::Polled { status: 200, retry_after: true }), (p, SubmitAction::SleepRetryAfter));
    assert_eq!(submit_next(p, SubmitEvent::Slept), (p, SubmitAction::Get));
    assert_eq!(submit_next(p, SubmitEvent::Polled { status: 404, retry_after: false }), (SubmitState::Finished { status: 404 }, SubmitAction::Finish { status: 404 }));
    assert_eq!(submit_next(p, SubmitEvent::Polled { status: 403, retry_after: true }), (SubmitState::Finished { status: 403 }, SubmitAction::Finish { status: 403 }));
    let (f, a) = submit_next(p, SubmitEvent::Polled { status: 429, retry_after: false });
    assert_eq!(a, SubmitAction::Sleep { seconds: 600 });
    assert_eq!(submit_next(f, SubmitEvent::Slept), (SubmitState::Finished { status: 429 }, SubmitAction::Finish { status: 429 }));
    assert_eq!(submit_next(p, SubmitEvent::Polled { status: 502, retry_after: false }).1, SubmitAction::Finish { status: 502 });
}

#[test]
fn alpha_check_steps() {
    let u = CheckMode::User;
    let c = CheckMode::Consultant;
    assert_eq!(check_next(u, CheckEvent::Recorded { checked: true }), CheckAction::Skip);
    assert_eq!(check_next(u, CheckEvent::Recorded { checked: false }), CheckAction::FetchSelfCorrelation);
    assert_eq!(check_next(u, CheckEvent::SelfCorrelation { too_high: true }), CheckAction::Reject);
    assert_eq!(check_next(u, CheckEvent::SelfCorrelation { too_high: false }), CheckAction::Accept);
    assert_eq!(check_next(c, CheckEvent::SelfCorrelation { too_high: true }), CheckAction::Reject);
    assert_eq!(check_next(c, CheckEvent::SelfCorrelation { too_high: false }), CheckAction::FetchProdCorrelation);
    assert_eq!(check_next(c, CheckEvent::ProdCorrelation { too_high: true }), CheckAction::Reject);
    assert_eq!(check_next(c, CheckEvent::ProdCorrelation { too_high: false }), CheckAction::Accept);
    assert_eq!(action_color(CheckAction::Reject), Some("RED"));
    assert_eq!(action_color(CheckAction::Accept), Some("GREEN"));
    assert_eq!(action_color(CheckAction::Skip), None);
}

#[test]
fn ended_submission_stays_ended() {
    let done = SubmitState::Finished { status: 200 };
    assert_eq!(submit_next(done, SubmitEvent::Slept), (done, SubmitAction::Finish { status: 200 }));
}

#[test]
fn command_names() {
    assert_eq!(CommandKind::Hunt.name(), "hunt");
    assert_eq!(CommandKind::Refine.name(), "refine");
    assert_eq!(CommandKind::Check.name(), "check");
    assert_eq!(CommandKind::Submit.name(), "submit");
    assert_eq!(CommandKind::Datasets.name(), "datasets");
    assert_eq!(CommandKind::Datafields.name(), "datafields");
}
