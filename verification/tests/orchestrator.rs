use metamanager::fan_in::FanInRouter;
use metamanager::fan_out::FanOutRouter;
use metamanager::orchestrator::combine_outcomes;
use metamanager::orchestrator::plan_orchestration;
use metamanager::orchestrator::OrchestrationError;
use metamanager::protocol::ProtocolError;

#[test]
fn one_path_is_not_enough() {
    let r = plan_orchestration(&vec![String::from("./manager")]);
    assert!(matches!(r, Err(OrchestrationError::InsufficientProcesses)));
}

#[test]
fn no_paths_is_not_enough() {
    let r = plan_orchestration(&Vec::new());
    assert!(matches!(r, Err(OrchestrationError::InsufficientProcesses)));
}

#[test]
fn two_paths_are_always_enough() {
    let r = plan_orchestration(&vec![String::from("./m"), String::from("./p")]);
    assert!(r.is_ok());
}

#[test]
fn the_first_path_is_the_manager_and_the_rest_play() {
    let paths = vec![
        String::from("./manager"),
        String::from("./alice"),
        String::from("./bob"),
    ];
    let plan = plan_orchestration(&paths).unwrap();
    assert_eq!(plan.manager_path, "./manager");
    assert_eq!(plan.player_paths, ["./alice", "./bob"]);
    assert_eq!(plan.delimiter, ':');
}

#[test]
fn the_fan_out_failure_wins_then_the_fan_in_one() {
    let r = combine_outcomes(Err(OrchestrationError::MalformedTag), Ok(()));
    assert!(matches!(r, Err(OrchestrationError::MalformedTag)));
    let r = combine_outcomes(Ok(()), Err(OrchestrationError::StreamIOFailure));
    assert!(matches!(r, Err(OrchestrationError::StreamIOFailure)));
    let r = combine_outcomes(
        Err(OrchestrationError::RecipientOutOfRange),
        Err(OrchestrationError::StreamIOFailure),
    );
    assert!(matches!(r, Err(OrchestrationError::RecipientOutOfRange)));
    assert!(combine_outcomes(Ok(()), Ok(())).is_ok());
}

#[test]
fn protocol_violations_become_orchestration_failures() {
    assert!(matches!(
        OrchestrationError::from_protocol(ProtocolError::MalformedTag),
        OrchestrationError::MalformedTag
    ));
    assert!(matches!(
        OrchestrationError::from_protocol(ProtocolError::RecipientOutOfRange),
        OrchestrationError::RecipientOutOfRange
    ));
}

#[test]
fn failures_describe_themselves() {
    assert_eq!(
        OrchestrationError::InsufficientProcesses.describe(),
        "at least a manager and one player are needed"
    );
    let e = OrchestrationError::SpawnFailure { path: String::from("./missing") };
    assert_eq!(e.describe(), "could not launch ./missing");
}

// The manager writes "0:start" and exits; the single player writes
// nothing and exits. The player must receive "start\n" before the run
// completes cleanly once both streams close.
#[test]
fn a_start_message_reaches_the_player_and_the_run_completes() {
    let plan = plan_orchestration(&vec![String::from("./m"), String::from("./p")]).unwrap();
    let fan_out = FanOutRouter::new(plan.player_paths.len(), plan.delimiter);
    let mut fan_in = FanInRouter::new(plan.player_paths.len(), plan.delimiter);

    // manager output: one line, then end-of-stream
    let d = fan_out.route("0:start").unwrap();
    assert_eq!(d.recipient, 0);
    assert_eq!(d.message, "start\n");

    // the player exits without output
    fan_in.handle_eof(0);
    assert!(fan_in.is_done());

    assert!(combine_outcomes(Ok(()), Ok(())).is_ok());
}

// The manager writes "0:ping", reads one line, and exits; player 0
// replies "pong". The manager's input sink must receive "0:pong\n".
#[test]
fn a_reply_comes_back_tagged_with_the_player_id() {
    let plan = plan_orchestration(&vec![
        String::from("./m"),
        String::from("./p0"),
        String::from("./p1"),
    ])
    .unwrap();
    let fan_out = FanOutRouter::new(plan.player_paths.len(), plan.delimiter);
    let mut fan_in = FanInRouter::new(plan.player_paths.len(), plan.delimiter);

    let d = fan_out.route("0:ping").unwrap();
    assert_eq!(d.recipient, 0);
    assert_eq!(d.message, "ping\n");

    let to_manager = fan_in.handle_line(0, "pong");
    assert_eq!(to_manager, "0:pong\n");
}
