use workbench_core::registry::{ProcessRegistry, RegistryError};
use workbench_core::supervisor::{
    cancel_reports, first_kill_method, CancelStep, Frame, KillMethod, Supervisor, SupervisorAction, SupervisorEvent,
    Usage,
};

fn sup() -> Supervisor {
    Supervisor::new(4242, "/work".to_string(), "hi".to_string(), "sonnet".to_string())
}

fn plain(line: &str) -> SupervisorEvent {
    SupervisorEvent::Stdout {
        line: line.to_string(),
        frame: Frame { init_session_id: None, usage: None, model: None },
    }
}

fn init(sid: &str) -> SupervisorEvent {
    SupervisorEvent::Stdout {
        line: format!("{{\"type\":\"system\",\"subtype\":\"init\",\"session_id\":\"{}\"}}", sid),
        frame: Frame { init_session_id: Some(sid.to_string()), usage: None, model: None },
    }
}

#[test]
fn session_init_registers_and_announces() {
    let mut reg = ProcessRegistry::new();
    let mut s = sup();
    let acts = s.on_event(&mut reg, init("a1b2c3"));
    match &acts[0] {
        SupervisorAction::SessionStarted { session_id, run_id, pid } => {
            assert_eq!(session_id, "a1b2c3");
            assert_eq!(*run_id, Some(1));
            assert_eq!(*pid, 4242);
        }
        _ => panic!("first action must announce the session"),
    }
    match &acts[1] {
        SupervisorAction::Output { session_id, .. } => assert_eq!(session_id.as_deref(), Some("a1b2c3")),
        _ => panic!("second action must forward the line"),
    }
    assert_eq!(acts.len(), 2);
    assert_eq!(reg.entries.len(), 1);
    assert_eq!(reg.entries[0].session_id, "a1b2c3");
    assert_eq!(reg.entries[0].run_id, 1);
    assert_eq!(reg.entries[0].pid, 4242);
}

#[test]
fn output_before_init_is_generic_only() {
    let mut reg = ProcessRegistry::new();
    let mut s = sup();
    let acts = s.on_event(&mut reg, plain("early"));
    assert_eq!(acts.len(), 1);
    match &acts[0] {
        SupervisorAction::Output { session_id, line } => {
            assert!(session_id.is_none());
            assert_eq!(line, "early");
        }
        _ => panic!("expected output"),
    }
}

#[test]
fn usage_frame_records_one_row() {
    let mut reg = ProcessRegistry::new();
    let mut s = sup();
    s.on_event(&mut reg, init("s1"));
    let ev = SupervisorEvent::Stdout {
        line: "{\"usage\":{}}".to_string(),
        frame: Frame {
            init_session_id: None,
            usage: Some(Usage {
                input_tokens: 10,
                output_tokens: 20,
                cache_creation_input_tokens: Some(5),
                cache_read_input_tokens: Some(3),
            }),
            model: Some("m".to_string()),
        },
    };
    let acts = s.on_event(&mut reg, ev);
    let rows: Vec<&SupervisorAction> =
        acts.iter().filter(|a| matches!(a, SupervisorAction::RecordUsage { .. })).collect();
    assert_eq!(rows.len(), 1);
    match rows[0] {
        SupervisorAction::RecordUsage {
            session_id,
            model,
            input_tokens,
            output_tokens,
            cache_creation_input_tokens,
            cache_read_input_tokens,
        } => {
            assert_eq!(session_id, "s1");
            assert_eq!(model, "m");
            assert_eq!((*input_tokens, *output_tokens), (10, 20));
            assert_eq!((*cache_creation_input_tokens, *cache_read_input_tokens), (Some(5), Some(3)));
        }
        _ => unreachable!(),
    }
    assert_eq!(
        reg.session_output("s1"),
        "{\"type\":\"system\",\"subtype\":\"init\",\"session_id\":\"s1\"}\n{\"usage\":{}}\n"
    );
}

#[test]
fn exit_completes_last_and_unregisters() {
    let mut reg = ProcessRegistry::new();
    let mut s = sup();
    s.on_event(&mut reg, init("s1"));
    let acts = s.on_event(&mut reg, SupervisorEvent::Exited { success: true });
    assert_eq!(acts.len(), 3);
    assert!(matches!(&acts[0], SupervisorAction::SessionStopped { success: true, .. }));
    assert!(matches!(&acts[1], SupervisorAction::Complete { session_id: Some(_), success: true }));
    assert!(matches!(&acts[2], SupervisorAction::Complete { session_id: None, success: true }));
    assert!(reg.entries.is_empty());
    assert!(s.on_event(&mut reg, plain("late")).is_empty());
}

#[test]
fn second_init_is_ignored() {
    let mut reg = ProcessRegistry::new();
    let mut s = sup();
    s.on_event(&mut reg, init("s1"));
    let acts = s.on_event(&mut reg, init("s2"));
    assert_eq!(acts.len(), 1);
    assert_eq!(s.session_id.as_deref(), Some("s1"));
}

#[test]
fn stderr_goes_to_error_channel() {
    let mut reg = ProcessRegistry::new();
    let mut s = sup();
    let acts = s.on_event(&mut reg, SupervisorEvent::Stderr { line: "oops".to_string() });
    assert!(matches!(&acts[0], SupervisorAction::ErrorOutput { session_id: None, .. }));
}

#[test]
fn registry_refuses_a_taken_session() {
    let mut reg = ProcessRegistry::new();
    assert_eq!(reg.register_session("s".to_string(), 1, "/".to_string(), "p".to_string(), "m".to_string()), Ok(1));
    assert_eq!(
        reg.register_session("s".to_string(), 2, "/".to_string(), "p".to_string(), "m".to_string()),
        Err(RegistryError::SessionTaken)
    );
    assert_eq!(reg.register_session("t".to_string(), 3, "/".to_string(), "p".to_string(), "m".to_string()), Ok(2));
    assert!(reg.append_live_output(2, "hello"));
    assert!(!reg.append_live_output(9, "nobody"));
    assert_eq!(reg.session_output("t"), "hello\n");
    assert_eq!(reg.session_output("none"), "");
    assert!(reg.unregister(1));
    assert!(!reg.unregister(1));
}

#[test]
fn cancellation_reports_even_without_process() {
    let steps = cancel_reports(Some("s1".to_string()));
    assert_eq!(steps.len(), 6);
    assert!(matches!(&steps[0], CancelStep::Cancelled { session_id: Some(s) } if s == "s1"));
    assert!(matches!(&steps[1], CancelStep::Pause { millis } if *millis >= 100));
    assert!(matches!(&steps[2], CancelStep::Complete { session_id: Some(s), success: false } if s == "s1"));
    let generic = cancel_reports(None);
    assert_eq!(generic.len(), 3);
    assert!(matches!(&generic[2], CancelStep::Complete { session_id: None, success: false }));
}

#[test]
fn kill_goes_through_registry_when_registered() {
    let mut reg = ProcessRegistry::new();
    reg.register_session("s".to_string(), 1, "/".to_string(), "p".to_string(), "m".to_string()).unwrap();
    assert!(matches!(first_kill_method(&reg, &Some("s".to_string())), KillMethod::Registry { run_id: 1 }));
    assert!(matches!(first_kill_method(&reg, &Some("x".to_string())), KillMethod::CurrentSlot));
    assert!(matches!(first_kill_method(&reg, &None), KillMethod::CurrentSlot));
}
