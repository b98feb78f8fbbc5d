use dtui::input::{keyboard_commands, KeyPress};
use dtui::monitor::{
    classify_lifecycle_action, container_from_listing, trim_leading_slashes, truncate_id,
    HostMonitor, LifecycleAction,
};
use dtui::order::{compare_str, Cmp};
use dtui::schedule::should_draw;
use dtui::strutil::trim;
use dtui::types::AppEvent;
use dtui::ui::{get_percentage_style, progress_filled_width, rate_unit, RateUnit, UsageLevel};

#[test]
fn test_percentage_style_thresholds() {
    // low (green)
    assert_eq!(get_percentage_style(30_000), UsageLevel::Low);
    // medium (yellow)
    assert_eq!(get_percentage_style(65_000), UsageLevel::Medium);
    // high (red)
    assert_eq!(get_percentage_style(85_000), UsageLevel::High);

    // boundary cases
    assert_eq!(get_percentage_style(50_000), UsageLevel::Low);
    assert_eq!(get_percentage_style(50_100), UsageLevel::Medium);
    assert_eq!(get_percentage_style(80_000), UsageLevel::Medium);
    assert_eq!(get_percentage_style(80_100), UsageLevel::High);
}

#[test]
fn test_color_coding_boundaries() {
    assert_eq!(get_percentage_style(0), UsageLevel::Low, "0% should be green");
    assert_eq!(
        get_percentage_style(50_000),
        UsageLevel::Low,
        "50% should be green"
    );
    assert_eq!(
        get_percentage_style(50_100),
        UsageLevel::Medium,
        "50.1% should be yellow"
    );
    assert_eq!(
        get_percentage_style(80_000),
        UsageLevel::Medium,
        "80% should be yellow"
    );
    assert_eq!(
        get_percentage_style(80_100),
        UsageLevel::High,
        "80.1% should be red"
    );
    assert_eq!(
        get_percentage_style(100_000),
        UsageLevel::High,
        "100% should be red"
    );
}

#[test]
fn test_progress_filled_width() {
    assert_eq!(progress_filled_width(0, 20), 0);
    assert_eq!(progress_filled_width(50_000, 20), 10);
    assert_eq!(progress_filled_width(100_000, 20), 20);
    // values past 100% clamp to a full bar
    assert_eq!(progress_filled_width(250_000, 20), 20);
    // rounding to the nearest cell: 12.4% of 20 cells is 2.48, shown as 2
    assert_eq!(progress_filled_width(12_400, 20), 2);
    // 12.5% of 20 cells is 2.5, rounded up to 3
    assert_eq!(progress_filled_width(12_500, 20), 3);
}

#[test]
fn test_rate_unit_thresholds() {
    assert_eq!(rate_unit(0), RateUnit::Bytes);
    assert_eq!(rate_unit(1023), RateUnit::Bytes);
    assert_eq!(rate_unit(1024), RateUnit::Kibi);
    assert_eq!(rate_unit(1024 * 1024 - 1), RateUnit::Kibi);
    assert_eq!(rate_unit(1024 * 1024), RateUnit::Mebi);
    assert_eq!(rate_unit(1024 * 1024 * 1024), RateUnit::Gibi);
}

#[test]
fn test_keyboard_quit_keys() {
    let (events, stop) = keyboard_commands(KeyPress::Character('q'), false);
    assert!(matches!(events.as_slice(), [AppEvent::Quit]));
    assert!(stop);

    let (events, stop) = keyboard_commands(KeyPress::Character('c'), true);
    assert!(matches!(events.as_slice(), [AppEvent::Quit]));
    assert!(stop);

    // a plain `c` is not a quit
    let (events, stop) = keyboard_commands(KeyPress::Character('c'), false);
    assert!(events.is_empty());
    assert!(!stop);
}

#[test]
fn test_keyboard_arrows_send_both_motions() {
    let (events, stop) = keyboard_commands(KeyPress::Up, false);
    assert!(matches!(
        events.as_slice(),
        [AppEvent::SelectPrevious, AppEvent::ScrollUp]
    ));
    assert!(!stop);

    let (events, _) = keyboard_commands(KeyPress::Down, false);
    assert!(matches!(
        events.as_slice(),
        [AppEvent::SelectNext, AppEvent::ScrollDown]
    ));
}

#[test]
fn test_keyboard_enter_escape_other() {
    let (events, _) = keyboard_commands(KeyPress::Enter, false);
    assert!(matches!(events.as_slice(), [AppEvent::EnterPressed]));

    let (events, _) = keyboard_commands(KeyPress::Escape, false);
    assert!(matches!(events.as_slice(), [AppEvent::ExitLogView]));

    let (events, stop) = keyboard_commands(KeyPress::OtherKey, false);
    assert!(events.is_empty());
    assert!(!stop);
}

#[test]
fn test_should_draw_rule() {
    assert!(should_draw(true, 0));
    assert!(!should_draw(false, 499));
    assert!(should_draw(false, 500));
    assert!(should_draw(false, 700));
}

#[test]
fn test_truncate_id_to_twelve_chars() {
    assert_eq!(
        truncate_id("0123456789abcdef0123456789abcdef"),
        "0123456789ab"
    );
    assert_eq!(truncate_id("short"), "short");
    assert_eq!(truncate_id(""), "");
}

#[test]
fn test_trim_leading_slashes() {
    assert_eq!(trim_leading_slashes("/nginx"), "nginx");
    assert_eq!(trim_leading_slashes("//nested/name"), "nested/name");
    assert_eq!(trim_leading_slashes("plain"), "plain");
}

#[test]
fn test_container_from_listing_defaults() {
    let c = container_from_listing(
        "host1",
        Some("0123456789abcdef".to_string()),
        Some("/web".to_string()),
        None,
    );
    assert_eq!(c.id, "0123456789ab");
    assert_eq!(c.name, "web");
    assert_eq!(c.status, "");
    assert_eq!(c.host_id, "host1");
    assert_eq!(c.stats.cpu, 0);
    assert_eq!(c.stats.memory, 0);
}

#[test]
fn test_lifecycle_action_classification() {
    assert_eq!(classify_lifecycle_action("start"), LifecycleAction::Started);
    assert_eq!(classify_lifecycle_action("die"), LifecycleAction::Stopped);
    assert_eq!(classify_lifecycle_action("stop"), LifecycleAction::Stopped);
    assert_eq!(classify_lifecycle_action("pause"), LifecycleAction::Ignored);
    assert_eq!(classify_lifecycle_action(""), LifecycleAction::Ignored);
}

#[test]
fn test_host_monitor_prevents_duplicate_spawns() {
    let mut monitor = HostMonitor::new("host1".to_string());
    assert!(monitor.begin_tracking("aaa111222333"));
    assert!(!monitor.begin_tracking("aaa111222333"));
    assert!(monitor.begin_tracking("bbb111222333"));
    assert_eq!(monitor.monitored.len(), 2);
}

#[test]
fn test_host_monitor_stop_is_idempotent() {
    let mut monitor = HostMonitor::new("host1".to_string());
    monitor.begin_tracking("aaa111222333");
    let stopped = monitor.on_container_stop("aaa111222333fffffff");
    let stopped = stopped.expect("tracked id should stop");
    assert_eq!(stopped.host_id, "host1");
    assert_eq!(stopped.container_id, "aaa111222333");
    // a second stop for the same id is a no-op
    assert!(monitor.on_container_stop("aaa111222333").is_none());
}

#[test]
fn test_compare_str_orders_lexicographically() {
    assert_eq!(compare_str("alpha", "beta"), Cmp::Less);
    assert_eq!(compare_str("beta", "alpha"), Cmp::Greater);
    assert_eq!(compare_str("alpha", "alpha"), Cmp::Equal);
    assert_eq!(compare_str("alp", "alpha"), Cmp::Less);
    assert_eq!(compare_str("", "a"), Cmp::Less);
}

#[test]
fn test_trim_removes_surrounding_whitespace() {
    assert_eq!(trim("  hello  "), "hello");
    assert_eq!(trim("\t x \n"), "x");
    assert_eq!(trim("inner   spaces kept"), "inner   spaces kept");
    assert_eq!(trim("   "), "");
    assert_eq!(trim(""), "");
}
