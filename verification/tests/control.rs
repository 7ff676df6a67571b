use hardshare::control::{
    worker_step, CWorkerCommand, ConnType, InstanceState, InstanceStatus, LaunchRun, LaunchStep, Reply, WorkerEffect,
};

#[test]
fn cannot_init_when_busy() {
    let instance_ids = ["e5fcf112-7af2-4d9f-93ce-b93f0da9144d", "0f2576b5-17d9-477e-ba70-f07142faa2d9"];
    let mut current_instance = InstanceState::new();
    let result = current_instance.init(instance_ids[0]);
    assert!(result.is_ok());

    assert!(current_instance.has_instance());
    assert!(current_instance.init(instance_ids[1]).is_err());
    assert_eq!(current_instance.id, Some(instance_ids[0].to_string()));
}

#[test]
fn generated_local_name_random() {
    let mut instance = InstanceState::new();
    let first = instance.generate_local_name("base");
    let first_as_stored = instance.get_local_name().unwrap();
    assert_eq!(first, first_as_stored);
    let second = instance.generate_local_name("base");
    assert_ne!(first, second);
}

#[test]
fn local_name_has_suffix() {
    let mut instance = InstanceState::new();
    assert_eq!(instance.get_local_name(), Err("Local container name is undefined"));
    assert_eq!(instance.set_local_name("rrc", 4107), "rrc4107");
    assert_eq!(instance.get_local_name(), Ok("rrc4107".to_string()));
}

#[test]
fn launch_is_acked_then_refused_while_busy() {
    let mut state = InstanceState::new();
    let req = CWorkerCommand::launch_instance("i1", "m1", ConnType::SshTun, "key", None, None);
    let step = worker_step(&mut state, &req);
    assert!(matches!(step.reply, Some(Reply::Ack { .. })));
    assert!(matches!(step.effect, WorkerEffect::Launch));
    assert_eq!(state.status(), Some(InstanceStatus::Init));

    let again = CWorkerCommand::launch_instance("i2", "m2", ConnType::SshTun, "key", None, None);
    let step = worker_step(&mut state, &again);
    assert!(matches!(step.reply, Some(Reply::Nack { .. })));
    assert!(matches!(step.effect, WorkerEffect::Nothing));
}

#[test]
fn destroy_only_when_ready() {
    let mut state = InstanceState::new();
    let destroy = CWorkerCommand::destroy_instance("i1", "m1");
    let step = worker_step(&mut state, &destroy);
    assert!(matches!(step.reply, Some(Reply::Nack { .. })));

    state.init("i1").unwrap();
    let step = worker_step(&mut state, &destroy);
    assert!(matches!(step.reply, Some(Reply::Nack { .. })));
    assert_eq!(state.status(), Some(InstanceStatus::Init));

    state.declare_status(InstanceStatus::Ready);
    let step = worker_step(&mut state, &destroy);
    assert!(matches!(step.reply, Some(Reply::Ack { .. })));
    assert!(matches!(step.effect, WorkerEffect::Destroy));
    assert_eq!(state.status(), Some(InstanceStatus::Terminating));

    // Already terminating: acknowledged, nothing more to do.
    let step = worker_step(&mut state, &destroy);
    assert!(matches!(step.reply, Some(Reply::Ack { .. })));
    assert!(matches!(step.effect, WorkerEffect::Nothing));
}

#[test]
fn status_request_reports_status_name() {
    let mut state = InstanceState::new();
    let status = CWorkerCommand::get_status("i1", "m1");
    let step = worker_step(&mut state, &status);
    assert!(matches!(step.reply, Some(Reply::Nack { .. })));
    state.init("i1").unwrap();
    let step = worker_step(&mut state, &status);
    match step.reply {
        Some(Reply::Ack { status: Some(s), .. }) => assert_eq!(s.name(), "INIT"),
        _ => panic!("expected an ACK with status"),
    }
}

#[test]
fn response_is_handled_once() {
    let mut state = InstanceState::new();
    assert!(state.register_message("77".to_string()));
    assert!(!state.register_message("77".to_string()));
    let tunnel = hardshare::control::TunnelInfo {
        hostkey: "k".into(),
        ipv4: "10.0.0.1".into(),
        port: 22,
        thport: 2222,
        thuser: "u".into(),
    };
    let done = CWorkerCommand::create_sshtun_done("i1", "77", &tunnel);
    assert_eq!(state.handle_response(&done), Ok(()));
    assert_eq!(state.handle_response(&done), Err("already handled message 77".to_string()));
    let other = CWorkerCommand::create_sshtun_done("i1", "78", &tunnel);
    assert_eq!(state.handle_response(&other), Err("unknown message 78".to_string()));
}

#[test]
fn terminate_rules() {
    let mut state = InstanceState::new();
    assert!(state.terminate().is_err());
    state.init("i1").unwrap();
    assert_eq!(state.terminate(), Err("cannot terminate when status is INIT".to_string()));
    state.declare_status(InstanceStatus::Ready);
    assert_eq!(state.terminate(), Ok(true));
    assert_eq!(state.terminate(), Ok(false));
}

#[test]
fn sshtun_only_while_starting_or_ready() {
    let mut state = InstanceState::new();
    assert_eq!(state.sshtun_allowed(), Err("called when no active instance".to_string()));
    state.init("i1").unwrap();
    assert!(state.sshtun_allowed().is_ok());
    state.declare_status(InstanceStatus::Fault);
    assert_eq!(state.sshtun_allowed(), Err("called when instance status FAULT".to_string()));
}

#[test]
fn clearing_keeps_a_fault() {
    let mut state = InstanceState::new();
    state.declare_status(InstanceStatus::Fault);
    state.clear_status();
    assert_eq!(state.status(), Some(InstanceStatus::Fault));
    state.declare_status(InstanceStatus::Ready);
    state.clear_status();
    assert_eq!(state.status(), None);
}

#[test]
fn launch_ends_ready_or_failed() {
    let mut state = InstanceState::new();
    state.init("e5fcf112-7af2-4d9f-93ce-b93f0da9144d").unwrap();
    assert_eq!(state.finish_launch(&Err("clone failed".to_string())), InstanceStatus::InitFail);
    assert_eq!(state.status(), Some(InstanceStatus::InitFail));
    let mut state = InstanceState::new();
    state.init("0f2576b5-17d9-477e-ba70-f07142faa2d9").unwrap();
    assert_eq!(state.finish_launch(&Ok(())), InstanceStatus::Ready);
    assert_eq!(state.status(), Some(InstanceStatus::Ready));
}

#[test]
fn launch_runs_planned_steps_until_a_failure() {
    let mut run = LaunchRun::new(true, true);
    let mut seen = vec![];
    while let Some(step) = run.next() {
        seen.push(step);
        run.record(Ok(()));
    }
    assert_eq!(seen, vec![LaunchStep::Container, LaunchStep::Clone, LaunchStep::RunScript, LaunchStep::Tunnel]);
    assert!(run.outcome().is_ok());

    let mut run = LaunchRun::new(true, false);
    let mut seen = vec![];
    while let Some(step) = run.next() {
        seen.push(step);
        let r = if step == LaunchStep::Clone { Err("clone of x failed".to_string()) } else { Ok(()) };
        run.record(r);
    }
    assert_eq!(seen, vec![LaunchStep::Container, LaunchStep::Clone]);
    assert_eq!(run.outcome().unwrap_err(), "clone of x failed");

    let run = LaunchRun::new(false, true);
    assert_eq!(run.plan, vec![LaunchStep::Container, LaunchStep::Tunnel]);
}
