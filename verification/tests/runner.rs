use webhook_dispatcher::runner::CommandRun;

#[test]
fn clean_run_hands_out_the_whole_plan_in_order() {
    let plan = vec![String::from("first"), String::from("second")];
    let mut run = CommandRun::new(plan);
    assert_eq!(run.take_next(), Some(String::from("first")));
    run.record_outcome(true);
    assert_eq!(run.take_next(), Some(String::from("second")));
    run.record_outcome(true);
    assert_eq!(run.take_next(), None);
}

#[test]
fn failed_command_stops_the_rest_of_the_chain() {
    let plan = vec![String::from("first"), String::from("second")];
    let mut run = CommandRun::new(plan);
    assert_eq!(run.take_next(), Some(String::from("first")));
    run.record_outcome(false);
    assert_eq!(run.take_next(), None);
    assert_eq!(run.take_next(), None);
}

#[test]
fn failure_is_sticky_across_later_successes() {
    let plan = vec![
        String::from("first"),
        String::from("second"),
        String::from("third"),
    ];
    let mut run = CommandRun::new(plan);
    assert_eq!(run.take_next(), Some(String::from("first")));
    run.record_outcome(false);
    run.record_outcome(true);
    assert_eq!(run.take_next(), None);
}

#[test]
fn empty_plan_hands_out_nothing() {
    let mut run = CommandRun::new(Vec::new());
    assert_eq!(run.take_next(), None);
}
