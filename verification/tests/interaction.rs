use dockerrs::interaction::{bind_key, Command, Key, KeyPress, LOG_PAGE_HEIGHT};
use dockerrs::{App, ContainerSummary, DockerAction, DockerEvent, Mode, NetworkSummary, Tab};

fn container(id: &str, name: &str, state: &str) -> ContainerSummary {
    ContainerSummary {
        id: Some(id.to_string()),
        names: Some(vec![format!("/{}", name)]),
        image: None,
        image_id: None,
        command: None,
        state: Some(state.to_string()),
        status: None,
        ports: None,
        labels: None,
        networks: None,
        mounts: None,
    }
}

fn network(id: &str, name: &str) -> NetworkSummary {
    NetworkSummary {
        id: Some(id.to_string()),
        name: Some(name.to_string()),
        driver: None,
        scope: None,
        containers: None,
    }
}

fn app_with(state: &str) -> App {
    let mut app = App::new();
    app.update_containers(vec![container("abc123", "web", state), container("def456", "zeta", "exited")]);
    app
}

fn press(app: &mut App, c: char) -> Option<DockerAction> {
    app.handle_key(Key::Char(c), false)
}

#[test]
fn initial_state() {
    let app = App::new();
    assert_eq!(app.tab, Tab::Containers);
    assert_eq!(app.mode, Mode::Normal);
    assert!(!app.should_quit);
    assert!(app.containers.is_empty());
    assert!(app.networks.is_empty());
    assert_eq!(app.container_selected, None);
    assert_eq!(app.network_selected, None);
    assert!(app.log_lines.is_empty());
    assert_eq!(app.log_scroll, 0);
    assert!(!app.log_streaming);
    assert_eq!(app.status_message, None);
    assert!(app.selected_container().is_none());
    assert_eq!(app.selected_container_id(), None);
    assert_eq!(app.selected_container_state(), None);
}

#[test]
fn tab_cycles_and_has_titles() {
    assert_eq!(Tab::Containers.next(), Tab::Networks);
    assert_eq!(Tab::Networks.next(), Tab::Containers);
    assert_eq!(Tab::Containers.title(), "Containers");
    assert_eq!(Tab::Networks.title(), "Networks");
}

#[test]
fn start_or_stop_stops_a_running_container() {
    let mut app = app_with("running");
    assert_eq!(app.selected_container_id().as_deref(), Some("abc123"));
    assert_eq!(app.selected_container_state(), Some("running"));
    let action = press(&mut app, 's');
    assert!(matches!(action, Some(DockerAction::Stop(ref id)) if id == "abc123"));
    assert_eq!(app.mode, Mode::Normal);
}

#[test]
fn start_or_stop_starts_an_exited_container() {
    let mut app = app_with("exited");
    let action = press(&mut app, 's');
    assert!(matches!(action, Some(DockerAction::Start(ref id)) if id == "abc123"));
}

#[test]
fn start_or_stop_starts_a_container_without_state() {
    let mut app = app_with("running");
    app.containers[0].state = None;
    let action = app.dispatch(Command::StartOrStop);
    assert!(matches!(action, Some(DockerAction::Start(ref id)) if id == "abc123"));
    app.containers[0].state = Some("Running".to_string());
    let action = app.dispatch(Command::StartOrStop);
    assert!(matches!(action, Some(DockerAction::Start(ref id)) if id == "abc123"));
}

#[test]
fn kill_and_remove_target_the_selected_container() {
    let mut app = app_with("running");
    app.handle_key(Key::Down, false);
    assert_eq!(app.container_selected, Some(1));
    let action = press(&mut app, 'x');
    assert!(matches!(action, Some(DockerAction::Kill(ref id)) if id == "def456"));
    let action = press(&mut app, 'r');
    assert!(matches!(action, Some(DockerAction::Remove(ref id)) if id == "def456"));
}

#[test]
fn lifecycle_keys_need_a_selection() {
    let mut app = App::new();
    for c in ['s', 'x', 'r', 'l'] {
        assert!(press(&mut app, c).is_none());
    }
    assert!(app.handle_key(Key::Enter, false).is_none());
    assert_eq!(app.mode, Mode::Normal);
}

#[test]
fn lifecycle_keys_do_nothing_on_networks_tab() {
    let mut app = app_with("running");
    app.update_networks(vec![network("n1", "bridge")]);
    assert!(app.handle_key(Key::Tab, false).is_none());
    assert_eq!(app.tab, Tab::Networks);
    for c in ['s', 'x', 'r', 'l'] {
        assert!(press(&mut app, c).is_none());
    }
    assert!(app.handle_key(Key::Enter, false).is_none());
    assert_eq!(app.mode, Mode::Normal);
    assert_eq!(app.tab, Tab::Networks);
}

#[test]
fn entering_logs_clears_buffer_and_streams() {
    let mut app = app_with("running");
    app.log_lines = vec!["stale".to_string()];
    app.log_scroll = 1;
    let action = press(&mut app, 'l');
    assert!(matches!(action, Some(DockerAction::StreamLogs { ref container_id }) if container_id == "abc123"));
    assert_eq!(app.mode, Mode::Logs);
    assert!(app.log_lines.is_empty());
    assert_eq!(app.log_scroll, 0);
    assert!(app.log_streaming);
    app.apply_event(DockerEvent::LogLine("hello".to_string()));
    assert_eq!(app.log_lines, vec!["hello"]);
    app.apply_event(DockerEvent::LogStreamEnded);
    assert!(!app.log_streaming);
    assert_eq!(app.mode, Mode::Logs);
    assert_eq!(app.log_lines, vec!["hello"]);
}

#[test]
fn leaving_logs_stops_the_stream() {
    let mut app = app_with("running");
    press(&mut app, 'l');
    let action = app.handle_key(Key::Esc, false);
    assert!(matches!(action, Some(DockerAction::StopLogStream)));
    assert_eq!(app.mode, Mode::Normal);
    assert!(!app.log_streaming);
    // Lines that still arrive from the stream are dropped.
    app.apply_event(DockerEvent::LogLine("late".to_string()));
    assert!(app.log_lines.is_empty());
}

#[test]
fn detail_mode_transitions() {
    let mut app = app_with("running");
    assert!(app.handle_key(Key::Enter, false).is_none());
    assert_eq!(app.mode, Mode::Detail);
    // Neither the tab switch nor quit nor navigation is bound in detail mode.
    app.handle_key(Key::Tab, false);
    assert_eq!(app.tab, Tab::Containers);
    press(&mut app, 'q');
    assert!(!app.should_quit);
    press(&mut app, 'j');
    assert_eq!(app.container_selected, Some(0));
    let action = press(&mut app, 's');
    assert!(matches!(action, Some(DockerAction::Stop(ref id)) if id == "abc123"));
    let action = press(&mut app, 'l');
    assert!(matches!(action, Some(DockerAction::StreamLogs { .. })));
    assert_eq!(app.mode, Mode::Logs);
    app.handle_key(Key::Esc, false);
    assert_eq!(app.mode, Mode::Normal);
    app.handle_key(Key::Enter, false);
    assert_eq!(app.mode, Mode::Detail);
    assert!(app.handle_key(Key::Esc, false).is_none());
    assert_eq!(app.mode, Mode::Normal);
}

#[test]
fn switch_tab_outside_normal_mode_is_refused() {
    let mut app = app_with("running");
    app.dispatch(Command::OpenDetail);
    app.switch_tab();
    assert_eq!((app.tab, app.mode), (Tab::Containers, Mode::Detail));
    app.dispatch(Command::NextTab);
    assert_eq!((app.tab, app.mode), (Tab::Containers, Mode::Detail));
    app.dispatch(Command::Back);
    app.switch_tab();
    assert_eq!((app.tab, app.mode), (Tab::Networks, Mode::Normal));
    app.switch_tab();
    assert_eq!(app.tab, Tab::Containers);
}

#[test]
fn commands_of_other_modes_are_ignored() {
    let mut app = app_with("running");
    for i in 0..50 {
        app.log_lines.push(i.to_string());
    }
    app.dispatch(Command::PageDown);
    app.dispatch(Command::Bottom);
    assert_eq!(app.log_scroll, 0);
    press(&mut app, 'l');
    for i in 0..50 {
        app.apply_event(DockerEvent::LogLine(i.to_string()));
    }
    assert!(app.dispatch(Command::Kill).is_none());
    assert!(app.dispatch(Command::StartOrStop).is_none());
    assert!(app.dispatch(Command::ViewLogs).is_none());
    app.dispatch(Command::Down);
    assert_eq!(app.container_selected, Some(0));
    app.dispatch(Command::Quit);
    assert!(!app.should_quit);
    app.dispatch(Command::OpenDetail);
    assert_eq!(app.mode, Mode::Logs);
}

#[test]
fn log_keys_page_by_the_fixed_height() {
    assert_eq!(LOG_PAGE_HEIGHT, 20);
    let mut app = app_with("running");
    press(&mut app, 'l');
    for i in 0..50 {
        app.apply_event(DockerEvent::LogLine(i.to_string()));
    }
    app.handle_key(Key::PageDown, false);
    assert_eq!(app.log_scroll, 20);
    app.handle_key(Key::PageDown, false);
    assert_eq!(app.log_scroll, 30);
    app.handle_key(Key::PageUp, false);
    assert_eq!(app.log_scroll, 10);
    press(&mut app, 'G');
    assert_eq!(app.log_scroll, 30);
    press(&mut app, 'g');
    assert_eq!(app.log_scroll, 0);
}

#[test]
fn interrupt_quits_from_every_mode() {
    let mut app = app_with("running");
    app.handle_key(Key::Char('c'), true);
    assert!(app.should_quit);
    let mut app = app_with("running");
    press(&mut app, 'l');
    assert!(app.handle_key(Key::Char('c'), true).is_none());
    assert!(app.should_quit);
    assert_eq!(app.mode, Mode::Logs);
    let mut app = app_with("running");
    app.handle_key(Key::Enter, false);
    app.handle_key(Key::Char('c'), true);
    assert!(app.should_quit);
    // A plain `c`, or control with another key, does not quit.
    let mut app = app_with("running");
    press(&mut app, 'c');
    app.handle_key(Key::Char('q'), true);
    assert!(!app.should_quit);
    press(&mut app, 'q');
    assert!(app.should_quit);
}

#[test]
fn key_bindings_per_mode() {
    assert_eq!(bind_key(Mode::Normal, Key::Char('q'), false), Some(Command::Quit));
    assert_eq!(bind_key(Mode::Normal, Key::Tab, false), Some(Command::NextTab));
    assert_eq!(bind_key(Mode::Normal, Key::Char('j'), false), Some(Command::Down));
    assert_eq!(bind_key(Mode::Normal, Key::Down, false), Some(Command::Down));
    assert_eq!(bind_key(Mode::Normal, Key::Char('k'), false), Some(Command::Up));
    assert_eq!(bind_key(Mode::Normal, Key::Up, false), Some(Command::Up));
    assert_eq!(bind_key(Mode::Normal, Key::Enter, false), Some(Command::OpenDetail));
    assert_eq!(bind_key(Mode::Normal, Key::Char('l'), false), Some(Command::ViewLogs));
    assert_eq!(bind_key(Mode::Normal, Key::Char('s'), false), Some(Command::StartOrStop));
    assert_eq!(bind_key(Mode::Normal, Key::Char('x'), false), Some(Command::Kill));
    assert_eq!(bind_key(Mode::Normal, Key::Char('r'), false), Some(Command::Remove));
    assert_eq!(bind_key(Mode::Normal, Key::Esc, false), None);
    assert_eq!(bind_key(Mode::Normal, Key::PageDown, false), None);
    assert_eq!(bind_key(Mode::Normal, Key::Other, false), None);
    assert_eq!(bind_key(Mode::Detail, Key::Esc, false), Some(Command::Back));
    assert_eq!(bind_key(Mode::Detail, Key::Char('l'), false), Some(Command::ViewLogs));
    assert_eq!(bind_key(Mode::Detail, Key::Char('s'), false), Some(Command::StartOrStop));
    assert_eq!(bind_key(Mode::Detail, Key::Char('x'), false), Some(Command::Kill));
    assert_eq!(bind_key(Mode::Detail, Key::Char('r'), false), Some(Command::Remove));
    assert_eq!(bind_key(Mode::Detail, Key::Char('q'), false), None);
    assert_eq!(bind_key(Mode::Detail, Key::Tab, false), None);
    assert_eq!(bind_key(Mode::Detail, Key::Enter, false), None);
    assert_eq!(bind_key(Mode::Logs, Key::PageUp, false), Some(Command::PageUp));
    assert_eq!(bind_key(Mode::Logs, Key::PageDown, false), Some(Command::PageDown));
    assert_eq!(bind_key(Mode::Logs, Key::Char('g'), false), Some(Command::Top));
    assert_eq!(bind_key(Mode::Logs, Key::Char('G'), false), Some(Command::Bottom));
    assert_eq!(bind_key(Mode::Logs, Key::Esc, false), Some(Command::Back));
    assert_eq!(bind_key(Mode::Logs, Key::Char('s'), false), None);
    for mode in [Mode::Normal, Mode::Detail, Mode::Logs] {
        assert_eq!(bind_key(mode, Key::Char('c'), true), Some(Command::Interrupt));
        assert_eq!(bind_key(mode, Key::Char('C'), true), None);
        assert_eq!(bind_key(mode, Key::Esc, true), None);
    }
}

#[test]
fn navigation_wraps_around() {
    let mut app = App::new();
    app.next_item();
    assert_eq!(app.container_selected, None);
    app.prev_item();
    assert_eq!(app.container_selected, None);
    app.update_containers(vec![
        container("a", "a", "running"),
        container("b", "b", "running"),
        container("c", "c", "running"),
    ]);
    assert_eq!(app.container_selected, Some(0));
    app.next_item();
    assert_eq!(app.container_selected, Some(1));
    app.next_item();
    app.next_item();
    assert_eq!(app.container_selected, Some(0));
    app.prev_item();
    assert_eq!(app.container_selected, Some(2));
    app.prev_item();
    assert_eq!(app.container_selected, Some(1));
    app.container_selected = None;
    app.next_item();
    assert_eq!(app.container_selected, Some(0));
    app.container_selected = None;
    app.prev_item();
    assert_eq!(app.container_selected, Some(0));
    app.container_selected = Some(usize::MAX);
    app.next_item();
    // usize::MAX + 1 is a multiple of 3 exactly if 2^64 is: 2^64 mod 3 = 1.
    assert_eq!(app.container_selected, Some(((usize::MAX as u128 + 1) % 3) as usize));
}

#[test]
fn navigation_acts_on_the_active_tab() {
    let mut app = app_with("running");
    app.update_networks(vec![network("n1", "bridge"), network("n2", "host")]);
    app.switch_tab();
    app.next_item();
    assert_eq!(app.network_selected, Some(1));
    assert_eq!(app.container_selected, Some(0));
    app.handle_key(Key::Char('k'), false);
    assert_eq!(app.network_selected, Some(0));
    app.handle_key(Key::Up, false);
    assert_eq!(app.network_selected, Some(1));
}

#[test]
fn failed_action_result_replaces_status_only() {
    let mut app = app_with("running");
    press(&mut app, 'l');
    app.apply_event(DockerEvent::LogLine("x".to_string()));
    app.status_message = Some("Started container abc123".to_string());
    app.apply_event(DockerEvent::ActionResult {
        success: false,
        message: "Start failed: no such container".to_string(),
    });
    assert_eq!(app.status_message.as_deref(), Some("Start failed: no such container"));
    assert_eq!(app.tab, Tab::Containers);
    assert_eq!(app.mode, Mode::Logs);
    assert!(!app.should_quit);
    assert_eq!(app.containers.len(), 2);
    assert_eq!(app.container_selected, Some(0));
    assert!(app.networks.is_empty());
    assert_eq!(app.network_selected, None);
    assert_eq!(app.log_lines, vec!["x"]);
    assert_eq!(app.log_scroll, 0);
    assert!(app.log_streaming);
    app.apply_event(DockerEvent::ActionResult { success: true, message: "ok".to_string() });
    assert_eq!(app.status_message.as_deref(), Some("ok"));
}

#[test]
fn snapshot_events_are_reconciled() {
    let mut app = App::new();
    app.apply_event(DockerEvent::ContainersUpdated(vec![
        container("b", "b", "running"),
        container("a", "a", "exited"),
    ]));
    assert_eq!(app.containers[0].id.as_deref(), Some("a"));
    assert_eq!(app.container_selected, Some(0));
    app.apply_event(DockerEvent::NetworksUpdated(vec![network("n", "bridge")]));
    assert_eq!(app.network_selected, Some(0));
    app.apply_event(DockerEvent::ContainersUpdated(Vec::new()));
    assert_eq!(app.container_selected, None);
    assert_eq!(app.network_selected, Some(0));
}

fn plain(c: char) -> KeyPress {
    KeyPress { key: Key::Char(c), ctrl: false }
}

#[test]
fn tick_applies_events_before_input() {
    let mut app = App::new();
    // The snapshot arrives in the same tick as the key press that acts on it.
    let actions = app.tick(
        vec![
            DockerEvent::ContainersUpdated(vec![
                container("def456", "zeta", "exited"),
                container("abc123", "web", "running"),
            ]),
            DockerEvent::ActionResult { success: true, message: "ready".to_string() },
        ],
        vec![plain('s'), plain('j'), plain('s'), plain('l')],
    );
    assert_eq!(actions.len(), 3);
    assert!(matches!(&actions[0], DockerAction::Stop(id) if id == "abc123"));
    assert!(matches!(&actions[1], DockerAction::Start(id) if id == "def456"));
    assert!(matches!(&actions[2], DockerAction::StreamLogs { container_id } if container_id == "def456"));
    assert_eq!(app.mode, Mode::Logs);
    assert_eq!(app.container_selected, Some(1));
    assert_eq!(app.status_message.as_deref(), Some("ready"));
}

#[test]
fn tick_without_events_or_input_changes_nothing() {
    let mut app = app_with("running");
    let actions = app.tick(Vec::new(), Vec::new());
    assert!(actions.is_empty());
    assert_eq!(app.mode, Mode::Normal);
    assert_eq!(app.container_selected, Some(0));
    assert_eq!(app.containers.len(), 2);
}

#[test]
fn tick_drops_log_lines_that_arrive_before_the_view_opens() {
    let mut app = app_with("running");
    let actions = app.tick(
        vec![DockerEvent::LogLine("early".to_string())],
        vec![plain('l'), KeyPress { key: Key::Esc, ctrl: false }, KeyPress { key: Key::Char('c'), ctrl: true }],
    );
    assert_eq!(actions.len(), 2);
    assert!(matches!(actions[0], DockerAction::StreamLogs { .. }));
    assert!(matches!(actions[1], DockerAction::StopLogStream));
    assert!(app.log_lines.is_empty());
    assert!(app.should_quit);
    let actions = app.tick(vec![DockerEvent::LogLine("late".to_string())], Vec::new());
    assert!(actions.is_empty());
    assert!(app.log_lines.is_empty());
}
