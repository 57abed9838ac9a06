use rt::pty::{PtyConfig, PtyError, PtyManager};
use rt::signals::{ProcessManager, SignalEvent, SignalHandler};

fn config() -> PtyConfig {
    PtyConfig::with_defaults(Some("/bin/sh".to_string()), Some("/tmp".to_string()), false)
}

#[test]
fn test_pty_config_defaults() {
    let c = PtyConfig::with_defaults(None, None, false);
    assert_eq!(c.shell, "/bin/bash");
    assert_eq!(c.working_dir, "/");
    assert!(c.args.is_empty());
    assert_eq!(
        c.env_vars,
        vec![
            ("TERM".to_string(), "xterm-256color".to_string()),
            ("COLORTERM".to_string(), "truecolor".to_string())
        ]
    );
    assert_eq!((c.rows, c.cols), (24, 80));
    let c = config();
    assert_eq!(c.shell, "/bin/sh");
    assert_eq!(c.working_dir, "/tmp");
    let c = PtyConfig::with_defaults(Some("/bin/sh".to_string()), None, true);
    assert_eq!(c.shell, "cmd.exe");
}

#[test]
fn test_pty_manager() {
    let mut manager = PtyManager::new();

    let id = manager.create_session(config(), true).unwrap();
    assert!(manager.get_session(id).is_some());

    let removed = manager.remove_session(id);
    assert!(removed.is_some());
    assert!(manager.get_session(id).is_none());
}

#[test]
fn test_pty_resize() {
    let mut manager = PtyManager::new();
    let id = manager.create_session(config(), true).unwrap();

    let result = manager.resize(id, 50, 120, true);
    assert!(result.is_ok());
    assert_eq!(manager.get_session(id).unwrap().config.rows, 50);
    assert_eq!(manager.get_session(id).unwrap().config.cols, 120);
}

#[test]
fn test_failed_resize_leaves_configuration() {
    let mut manager = PtyManager::new();
    let id = manager.create_session(config(), true).unwrap();
    assert_eq!(manager.resize(id, 50, 120, false), Err(PtyError::ResizeFailed));
    assert_eq!(manager.get_session(id).unwrap().config.rows, 24);
    assert_eq!(manager.get_session(id).unwrap().config.cols, 80);
    assert_eq!(manager.resize(id + 1, 50, 120, true), Err(PtyError::NoSuchSession));
}

#[test]
fn test_failed_spawn_registers_nothing() {
    let mut manager = PtyManager::new();
    assert_eq!(manager.create_session(config(), false), Err(PtyError::SpawnFailed));
    assert!(manager.list_sessions().is_empty());
    assert_eq!(manager.create_session(config(), true), Ok(0));
}

#[test]
fn test_session_ids_rise_and_are_not_reused() {
    let mut manager = PtyManager::default();
    assert_eq!(manager.create_session(config(), true), Ok(0));
    assert_eq!(manager.create_session(config(), true), Ok(1));
    assert!(manager.remove_session(1).is_some());
    assert!(manager.remove_session(1).is_none());
    assert_eq!(manager.create_session(config(), true), Ok(2));
    assert!(manager.remove_session(0).is_some());
    assert_eq!(manager.create_session(config(), true), Ok(3));
    assert_eq!(manager.list_sessions(), vec![2, 3]);
}

#[test]
fn test_cleanup_removes_exited_sessions() {
    let mut manager = PtyManager::new();
    for _ in 0..5 {
        manager.create_session(config(), true).unwrap();
    }
    assert!(manager.is_alive(3));
    assert!(manager.mark_exited(1));
    assert!(manager.mark_exited(3));
    assert!(!manager.mark_exited(9));
    assert!(!manager.is_alive(3));
    assert!(!manager.is_alive(9));
    assert!(manager.get_session(3).is_some());
    assert_eq!(manager.cleanup_dead_sessions(), vec![1, 3]);
    assert_eq!(manager.list_sessions(), vec![0, 2, 4]);
    assert!(manager.get_session(3).is_none());
    assert!(manager.cleanup_dead_sessions().is_empty());
    assert_eq!(manager.list_sessions(), vec![0, 2, 4]);
}

#[test]
fn test_signal_handler_creation() {
    let handler = SignalHandler::new();
    assert!(!handler.is_shutdown_requested());
    assert!(!handler.is_resize_requested());
}

#[test]
fn test_signal_handler_flags() {
    let mut handler = SignalHandler::new();

    handler.request_shutdown();
    assert!(handler.is_shutdown_requested());

    handler.on_signal(SignalEvent::WindowChange);
    assert!(handler.is_resize_requested());

    handler.clear_resize_request();
    assert!(!handler.is_resize_requested());
}

#[test]
fn test_signals_ask_for_shutdown_or_resize() {
    for event in [SignalEvent::Interrupt, SignalEvent::Terminate, SignalEvent::Hangup, SignalEvent::Quit] {
        let mut handler = SignalHandler::default();
        handler.on_signal(event);
        assert!(handler.is_shutdown_requested());
        assert!(!handler.is_resize_requested());
    }
    let mut handler = SignalHandler::new();
    handler.on_signal(SignalEvent::WindowChange);
    assert!(!handler.is_shutdown_requested());
    assert!(handler.is_resize_requested());
    handler.on_signal(SignalEvent::Terminate);
    assert!(handler.is_shutdown_requested() && handler.is_resize_requested());
}

#[test]
fn test_process_manager() {
    let mut manager = ProcessManager::new();
    let pid = 1234;

    manager.add_process_to_group(1, pid);
    assert_eq!(manager.get_group_processes(1), Some(&vec![pid]));

    manager.remove_process_from_group(1, pid);
    assert!(manager.get_group_processes(1).is_none());
}

#[test]
fn test_process_groups() {
    let mut manager = ProcessManager::default();
    manager.add_process_to_group(7, 10);
    manager.add_process_to_group(3, 20);
    manager.add_process_to_group(7, 11);
    manager.add_process_to_group(7, 10);
    assert_eq!(manager.list_groups(), vec![7, 3]);
    assert_eq!(manager.get_group_processes(7), Some(&vec![10, 11, 10]));
    manager.remove_process_from_group(7, 10);
    assert_eq!(manager.get_group_processes(7), Some(&vec![11]));
    manager.remove_process_from_group(9, 10);
    manager.remove_process_from_group(3, 99);
    assert_eq!(manager.get_group_processes(3), Some(&vec![20]));
    assert_eq!(manager.remove_group(7), Some(vec![11]));
    assert_eq!(manager.remove_group(7), None);
    assert_eq!(manager.list_groups(), vec![3]);
}
