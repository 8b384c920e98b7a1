use thread_pool::{on_message, Directive, WorkerAction};

#[test]
fn job_is_run() {
    let action = on_message(Some(Directive::Job(7u32)));
    assert!(matches!(action, WorkerAction::Run(7)));
}

#[test]
fn stop_exits_the_loop() {
    let action = on_message::<u32>(Some(Directive::Stop));
    assert!(matches!(action, WorkerAction::Exit));
}

#[test]
fn closed_inbox_is_an_implicit_stop() {
    let action = on_message::<u32>(None);
    assert!(matches!(action, WorkerAction::Exit));
}

#[test]
fn job_payload_is_handed_through_unchanged() {
    let action = on_message(Some(Directive::Job(String::from("compute"))));
    match action {
        WorkerAction::Run(job) => assert_eq!(job, "compute"),
        WorkerAction::Exit => panic!("a job must be run, not dropped"),
    }
}
