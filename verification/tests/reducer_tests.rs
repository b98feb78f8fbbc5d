use dtui::app_state::AppState;
use dtui::logs::{LogEntry, Timestamp};
use dtui::types::{AppEvent, Container, ContainerKey, ContainerStats, LogCommand, ViewState};

fn container(host: &str, id: &str, name: &str) -> Container {
    Container {
        id: id.to_string(),
        name: name.to_string(),
        status: "running".to_string(),
        stats: ContainerStats::default(),
        host_id: host.to_string(),
    }
}

fn key(host: &str, id: &str) -> ContainerKey {
    ContainerKey::new(host.to_string(), id.to_string())
}

fn entry(message: &str) -> LogEntry {
    LogEntry {
        timestamp: Timestamp {
            year: 2025,
            month: 10,
            day: 28,
            hour: 12,
            minute: 0,
            second: 0,
            nanosecond: 0,
        },
        message: message.to_string(),
    }
}

fn names(state: &AppState) -> Vec<String> {
    state.containers.iter().map(|c| c.name.clone()).collect()
}

#[test]
fn test_initial_snapshot_sorts_and_selects_first() {
    let mut state = AppState::new();
    let (redraw, _) = state.handle_event(AppEvent::InitialContainerList(
        "host1".to_string(),
        vec![
            container("host1", "b1", "delta"),
            container("host1", "a1", "alpha"),
        ],
    ));
    assert!(redraw);
    assert_eq!(names(&state), vec!["alpha".to_string(), "delta".to_string()]);
    assert_eq!(state.selected, Some(0));
    assert_eq!(state.sorted_container_keys[0], key("host1", "a1"));
    assert_eq!(state.sorted_container_keys[1], key("host1", "b1"));
}

#[test]
fn test_initial_snapshot_sorts_by_host_then_name() {
    let mut state = AppState::new();
    state.handle_event(AppEvent::InitialContainerList(
        "hosts".to_string(),
        vec![
            container("host2", "c1", "alpha"),
            container("host1", "c2", "zulu"),
            container("host1", "c3", "alpha"),
        ],
    ));
    assert_eq!(
        state
            .containers
            .iter()
            .map(|c| (c.host_id.clone(), c.name.clone()))
            .collect::<Vec<_>>(),
        vec![
            ("host1".to_string(), "alpha".to_string()),
            ("host1".to_string(), "zulu".to_string()),
            ("host2".to_string(), "alpha".to_string()),
        ]
    );
}

#[test]
fn test_end_to_end_create_between_and_destroy_selected() {
    let mut state = AppState::new();
    state.handle_event(AppEvent::InitialContainerList(
        "host1".to_string(),
        vec![
            container("host1", "a1", "alpha"),
            container("host1", "b1", "delta"),
        ],
    ));
    assert_eq!(state.selected, Some(0));

    // a container named between the two existing ones lands at index 1
    let (redraw, _) = state.handle_event(AppEvent::ContainerCreated(container(
        "host1", "c1", "charlie",
    )));
    assert!(redraw);
    assert_eq!(
        names(&state),
        vec![
            "alpha".to_string(),
            "charlie".to_string(),
            "delta".to_string()
        ]
    );

    // destroying the selected first row keeps index 0, now the next row
    let (redraw, _) = state.handle_event(AppEvent::ContainerDestroyed(key("host1", "a1")));
    assert!(redraw);
    assert_eq!(state.selected, Some(0));
    assert_eq!(state.containers[0].name, "charlie");
}

#[test]
fn test_selection_clears_when_last_row_destroyed() {
    let mut state = AppState::new();
    state.handle_event(AppEvent::ContainerCreated(container("host1", "a1", "alpha")));
    assert_eq!(state.selected, Some(0));
    state.handle_event(AppEvent::ContainerDestroyed(key("host1", "a1")));
    assert_eq!(state.selected, None);
    assert!(state.containers.is_empty());
}

#[test]
fn test_selection_clamps_to_new_last_row() {
    let mut state = AppState::new();
    state.handle_event(AppEvent::InitialContainerList(
        "host1".to_string(),
        vec![
            container("host1", "a1", "alpha"),
            container("host1", "b1", "beta"),
            container("host1", "c1", "gamma"),
        ],
    ));
    state.handle_event(AppEvent::SelectNext);
    state.handle_event(AppEvent::SelectNext);
    assert_eq!(state.selected, Some(2));
    state.handle_event(AppEvent::ContainerDestroyed(key("host1", "c1")));
    assert_eq!(state.selected, Some(1));
}

#[test]
fn test_select_moves_clamp_at_ends() {
    let mut state = AppState::new();
    state.handle_event(AppEvent::InitialContainerList(
        "host1".to_string(),
        vec![
            container("host1", "a1", "alpha"),
            container("host1", "b1", "beta"),
        ],
    ));
    state.handle_event(AppEvent::SelectPrevious);
    assert_eq!(state.selected, Some(0));
    state.handle_event(AppEvent::SelectNext);
    state.handle_event(AppEvent::SelectNext);
    assert_eq!(state.selected, Some(1));
    state.handle_event(AppEvent::SelectPrevious);
    assert_eq!(state.selected, Some(0));
}

#[test]
fn test_duplicate_create_replaces_row() {
    let mut state = AppState::new();
    state.handle_event(AppEvent::ContainerCreated(container("host1", "a1", "alpha")));
    state.handle_event(AppEvent::ContainerCreated(container("host1", "a1", "renamed")));
    assert_eq!(state.containers.len(), 1);
    assert_eq!(state.containers[0].name, "renamed");
    assert_eq!(state.sorted_container_keys.len(), 1);
}

#[test]
fn test_stat_update_overwrites_in_place() {
    let mut state = AppState::new();
    state.handle_event(AppEvent::ContainerCreated(container("host1", "a1", "alpha")));
    let stats = ContainerStats {
        cpu: 42_000,
        memory: 17_000,
        network_tx_bytes_per_sec: 5,
        network_rx_bytes_per_sec: 9,
    };
    let (redraw, _) = state.handle_event(AppEvent::ContainerStat(key("host1", "a1"), stats));
    assert!(!redraw, "stat updates ride the throttled frame");
    assert_eq!(state.containers[0].stats, stats);
    assert_eq!(state.containers[0].name, "alpha");
}

#[test]
fn test_stray_stat_for_unknown_key_is_ignored() {
    let mut state = AppState::new();
    state.handle_event(AppEvent::ContainerCreated(container("host1", "a1", "alpha")));
    let before = names(&state);
    let stats = ContainerStats {
        cpu: 99_000,
        memory: 99_000,
        network_tx_bytes_per_sec: 0,
        network_rx_bytes_per_sec: 0,
    };
    let (redraw, _) = state.handle_event(AppEvent::ContainerStat(key("host1", "zz"), stats));
    assert!(!redraw);
    assert_eq!(names(&state), before);
    assert_eq!(state.containers[0].stats, ContainerStats::default());
}

#[test]
fn test_stray_destroy_for_unknown_key_is_noop() {
    let mut state = AppState::new();
    state.handle_event(AppEvent::ContainerCreated(container("host1", "a1", "alpha")));
    state.handle_event(AppEvent::ContainerDestroyed(key("host2", "a1")));
    assert_eq!(state.containers.len(), 1);
    assert_eq!(state.selected, Some(0));
}

#[test]
fn test_stray_log_line_for_unknown_key_is_ignored() {
    let mut state = AppState::new();
    state.handle_event(AppEvent::ContainerCreated(container("host1", "a1", "alpha")));
    state.handle_event(AppEvent::EnterPressed);
    let (redraw, _) =
        state.handle_event(AppEvent::LogLine(key("host1", "zz"), entry("stray line")));
    assert!(!redraw);
    let (_, logs) = state.current_logs.as_ref().unwrap();
    assert!(logs.is_empty());
}

#[test]
fn test_enter_opens_log_view_and_starts_stream() {
    let mut state = AppState::new();
    state.handle_event(AppEvent::ContainerCreated(container("host1", "a1", "alpha")));
    let (redraw, cmd) = state.handle_event(AppEvent::EnterPressed);
    assert!(redraw);
    let k = key("host1", "a1");
    assert!(matches!(cmd, LogCommand::Start(ref t) if *t == k));
    assert_eq!(state.view_state, ViewState::LogView(k.clone()));
    assert_eq!(state.active_log_target, Some(k.clone()));
    let (log_key, logs) = state.current_logs.as_ref().unwrap();
    assert_eq!(*log_key, k);
    assert!(logs.is_empty());
    assert_eq!(state.log_scroll_offset, 0);
    assert!(state.is_at_bottom);
}

#[test]
fn test_enter_without_rows_is_noop() {
    let mut state = AppState::new();
    let (redraw, cmd) = state.handle_event(AppEvent::EnterPressed);
    assert!(!redraw);
    assert!(matches!(cmd, LogCommand::Unchanged));
    assert_eq!(state.view_state, ViewState::ContainerList);
    assert_eq!(state.active_log_target, None);
}

#[test]
fn test_single_active_log_task_across_enter_exit_enter() {
    let mut state = AppState::new();
    state.handle_event(AppEvent::InitialContainerList(
        "host1".to_string(),
        vec![
            container("host1", "a1", "alpha"),
            container("host1", "b1", "beta"),
        ],
    ));

    // open the first container's logs
    let (_, cmd) = state.handle_event(AppEvent::EnterPressed);
    assert!(matches!(cmd, LogCommand::Start(ref t) if *t == key("host1", "a1")));

    // a second enter while the log view shows is a no-op: nothing new starts
    let (redraw, cmd) = state.handle_event(AppEvent::EnterPressed);
    assert!(!redraw);
    assert!(matches!(cmd, LogCommand::Unchanged));

    // leaving the view stops the one task and clears the buffer
    let (_, cmd) = state.handle_event(AppEvent::ExitLogView);
    assert!(matches!(cmd, LogCommand::Stop));
    assert_eq!(state.active_log_target, None);
    assert!(state.current_logs.is_none());
    assert_eq!(state.view_state, ViewState::ContainerList);

    // opening another container starts exactly one stream, for that key,
    // and the buffer's key always matches the streamed key
    state.handle_event(AppEvent::SelectNext);
    let (_, cmd) = state.handle_event(AppEvent::EnterPressed);
    let k2 = key("host1", "b1");
    assert!(matches!(cmd, LogCommand::Start(ref t) if *t == k2));
    assert_eq!(state.active_log_target, Some(k2.clone()));
    assert_eq!(state.current_logs.as_ref().unwrap().0, k2);
}

#[test]
fn test_exit_log_view_outside_log_view_is_noop() {
    let mut state = AppState::new();
    let (redraw, cmd) = state.handle_event(AppEvent::ExitLogView);
    assert!(!redraw);
    assert!(matches!(cmd, LogCommand::Unchanged));
}

#[test]
fn test_log_lines_append_for_viewed_container() {
    let mut state = AppState::new();
    state.handle_event(AppEvent::ContainerCreated(container("host1", "a1", "alpha")));
    state.handle_event(AppEvent::EnterPressed);
    let k = key("host1", "a1");
    let (redraw, _) = state.handle_event(AppEvent::LogLine(k.clone(), entry("first")));
    assert!(redraw);
    state.handle_event(AppEvent::LogLine(k.clone(), entry("second")));
    let (_, logs) = state.current_logs.as_ref().unwrap();
    assert_eq!(logs.len(), 2);
    assert_eq!(logs[0].message, "first");
    assert_eq!(logs[1].message, "second");
}

#[test]
fn test_scrolling_only_in_log_view() {
    let mut state = AppState::new();
    state.handle_event(AppEvent::ContainerCreated(container("host1", "a1", "alpha")));

    // outside the log view, scrolling does nothing
    let (redraw, _) = state.handle_event(AppEvent::ScrollUp);
    assert!(!redraw);
    let (redraw, _) = state.handle_event(AppEvent::ScrollDown);
    assert!(!redraw);

    state.handle_event(AppEvent::EnterPressed);

    // at the top, scrolling up does not move
    let (redraw, _) = state.handle_event(AppEvent::ScrollUp);
    assert!(!redraw);
    assert_eq!(state.log_scroll_offset, 0);
    assert!(state.is_at_bottom);

    // scrolling down moves; scrolling back up leaves follow mode
    let (redraw, _) = state.handle_event(AppEvent::ScrollDown);
    assert!(redraw);
    assert_eq!(state.log_scroll_offset, 1);
    let (redraw, _) = state.handle_event(AppEvent::ScrollUp);
    assert!(redraw);
    assert_eq!(state.log_scroll_offset, 0);
    assert!(!state.is_at_bottom);
}

#[test]
fn test_selection_moves_are_noops_in_log_view() {
    let mut state = AppState::new();
    state.handle_event(AppEvent::InitialContainerList(
        "host1".to_string(),
        vec![
            container("host1", "a1", "alpha"),
            container("host1", "b1", "beta"),
        ],
    ));
    state.handle_event(AppEvent::EnterPressed);

    // selection commands apply only to the container list
    let (redraw, _) = state.handle_event(AppEvent::SelectNext);
    assert!(!redraw);
    assert_eq!(state.selected, Some(0));
    let (redraw, _) = state.handle_event(AppEvent::SelectPrevious);
    assert!(!redraw);
    assert_eq!(state.selected, Some(0));

    // back in the list view they move again
    state.handle_event(AppEvent::ExitLogView);
    let (redraw, _) = state.handle_event(AppEvent::SelectNext);
    assert!(redraw);
    assert_eq!(state.selected, Some(1));
}

#[test]
fn test_quit_sets_flag_without_redraw() {
    let mut state = AppState::new();
    let (redraw, _) = state.handle_event(AppEvent::Quit);
    assert!(!redraw);
    assert!(state.should_quit);
}

#[test]
fn test_resize_forces_redraw() {
    let mut state = AppState::new();
    let (redraw, _) = state.handle_event(AppEvent::Resize);
    assert!(redraw);
}

#[test]
fn test_destroy_while_viewing_keeps_log_view() {
    let mut state = AppState::new();
    state.handle_event(AppEvent::ContainerCreated(container("host1", "a1", "alpha")));
    state.handle_event(AppEvent::EnterPressed);
    state.handle_event(AppEvent::ContainerDestroyed(key("host1", "a1")));
    // the table empties, but the view and its buffer stay until the
    // operator leaves
    assert_eq!(state.view_state, ViewState::LogView(key("host1", "a1")));
    assert!(state.current_logs.is_some());
    assert_eq!(state.selected, None);
}
