use cosmic_monitor::notifications::{Notification, NotificationMonitor, NotificationReader};

fn feed_all(reader: &mut NotificationReader, lines: &[&str], now: u64) -> Vec<Notification> {
    let mut out = Vec::new();
    for line in lines {
        if let Some(n) = reader.feed_line(line, now) {
            out.push(n);
        }
    }
    out
}

fn note(app: &str, summary: &str, timestamp: u64) -> Notification {
    Notification {
        app_name: app.to_string(),
        summary: summary.to_string(),
        body: String::new(),
        timestamp,
    }
}

#[test]
fn notify_call_emits_one_notification() {
    let mut reader = NotificationReader::new();
    let lines = [
        "Member=Notify",
        "STRING \"Firefox\"",
        "STRING \"\"",
        "STRING \"Build complete\"",
        "STRING \"Target ready\"",
    ];
    let out = feed_all(&mut reader, &lines, 1_700_000_000);
    assert_eq!(out.len(), 1);
    assert_eq!(out[0].app_name, "Firefox");
    assert_eq!(out[0].summary, "Build complete");
    assert_eq!(out[0].body, "Target ready");
    assert_eq!(out[0].timestamp, 1_700_000_000);
}

#[test]
fn empty_app_name_falls_back_to_system() {
    let mut reader = NotificationReader::new();
    let lines = [
        "Member=Notify",
        "STRING \"\"",
        "STRING \"\"",
        "STRING \"Build complete\"",
        "STRING \"Target ready\"",
    ];
    let out = feed_all(&mut reader, &lines, 5);
    assert_eq!(out.len(), 1);
    assert_eq!(out[0].app_name, "System");
    assert_ne!(out[0].app_name, "");
}

#[test]
fn indented_trace_lines_are_trimmed() {
    let mut reader = NotificationReader::new();
    let lines = [
        "‣ Type=method_call  Endian=l  Flags=0  Version=1 Cookie=12  Member=Notify",
        "  Sender=:1.42  Destination=org.freedesktop.Notifications",
        "    STRING \"Mail\";",
        "    UINT32 0;",
        "    STRING \"mail-icon\";",
        "    STRING \"New message\";",
        "    STRING \"From: \"Ann\"\";",
    ];
    let out = feed_all(&mut reader, &lines, 9);
    assert_eq!(out.len(), 1);
    assert_eq!(out[0].app_name, "Mail");
    assert_eq!(out[0].summary, "New message");
    assert_eq!(out[0].body, "From: \"Ann\"");
}

#[test]
fn empty_summary_emits_nothing() {
    let mut reader = NotificationReader::new();
    let lines = ["Member=Notify", "STRING \"App\"", "STRING \"\"", "STRING \"\"", "STRING \"body\""];
    assert!(feed_all(&mut reader, &lines, 1).is_empty());
}

#[test]
fn strings_outside_a_call_are_ignored() {
    let mut reader = NotificationReader::new();
    let lines = ["STRING \"a\"", "STRING \"b\"", "STRING \"c\"", "STRING \"d\""];
    assert!(feed_all(&mut reader, &lines, 1).is_empty());
}

#[test]
fn a_new_call_marker_restarts_the_fields() {
    let mut reader = NotificationReader::new();
    let lines = [
        "Member=Notify",
        "STRING \"Old\"",
        "STRING \"\"",
        "Member=Notify",
        "STRING \"New\"",
        "STRING \"\"",
        "STRING \"Title\"",
        "STRING \"Body\"",
        "STRING \"extra\"",
    ];
    let out = feed_all(&mut reader, &lines, 2);
    assert_eq!(out.len(), 1);
    assert_eq!(out[0].app_name, "New");
    assert_eq!(out[0].summary, "Title");
}

#[test]
fn lines_with_one_quote_do_not_count() {
    let mut reader = NotificationReader::new();
    let lines = [
        "Member=Notify",
        "STRING \"",
        "STRING \"App\"",
        "STRING \"\"",
        "STRING \"Sum\"",
        "STRING \"Body\"",
    ];
    let out = feed_all(&mut reader, &lines, 3);
    assert_eq!(out.len(), 1);
    assert_eq!(out[0].app_name, "App");
}

#[test]
fn insertion_is_at_front_and_cap_drops_oldest() {
    let mut m = NotificationMonitor::new(3);
    for i in 0..4u64 {
        m.add_notification(note("app", &format!("n{}", i), i));
        assert_eq!(m.get_notifications()[0].timestamp, i);
    }
    let list = m.get_notifications();
    assert_eq!(list.len(), 3);
    let stamps: Vec<u64> = list.iter().map(|n| n.timestamp).collect();
    assert_eq!(stamps, vec![3, 2, 1]);
    assert!(list.iter().all(|n| n.summary != "n0"));
}

#[test]
fn cap_of_zero_keeps_nothing() {
    let mut m = NotificationMonitor::new(0);
    m.add_notification(note("a", "s", 1));
    assert!(m.get_notifications().is_empty());
}

#[test]
fn process_line_adds_completed_notifications() {
    let mut m = NotificationMonitor::new(10);
    let lines = ["Member=Notify", "STRING \"Term\"", "STRING \"\"", "STRING \"Done\"", "STRING \"ok\""];
    let mut emitted = 0;
    for line in lines.iter() {
        if m.process_line(line, 77).is_some() {
            emitted += 1;
        }
    }
    assert_eq!(emitted, 1);
    let list = m.get_notifications();
    assert_eq!(list.len(), 1);
    assert_eq!(list[0].app_name, "Term");
    assert_eq!(list[0].timestamp, 77);
}

#[test]
fn clear_empties_the_list() {
    let mut m = NotificationMonitor::new(5);
    m.add_notification(note("a", "s", 1));
    m.add_notification(note("b", "s", 2));
    m.clear();
    assert!(m.get_notifications().is_empty());
}

#[test]
fn clear_app_removes_only_that_app() {
    let mut m = NotificationMonitor::new(5);
    m.add_notification(note("a", "1", 1));
    m.add_notification(note("b", "2", 2));
    m.add_notification(note("a", "3", 3));
    m.clear_app("a");
    let list = m.get_notifications();
    assert_eq!(list.len(), 1);
    assert_eq!(list[0].app_name, "b");
}

#[test]
fn remove_notification_matches_app_and_timestamp() {
    let mut m = NotificationMonitor::new(5);
    m.add_notification(note("a", "1", 1));
    m.add_notification(note("a", "2", 2));
    m.add_notification(note("b", "3", 2));
    m.remove_notification("a", 2);
    let list = m.get_notifications();
    let kept: Vec<(String, u64)> = list.iter().map(|n| (n.app_name.clone(), n.timestamp)).collect();
    assert_eq!(kept, vec![("b".to_string(), 2), ("a".to_string(), 1)]);
}

#[test]
fn remove_notification_drops_all_colliding_entries() {
    let mut m = NotificationMonitor::new(5);
    m.add_notification(note("a", "1", 7));
    m.add_notification(note("a", "2", 7));
    m.remove_notification("a", 7);
    assert!(m.get_notifications().is_empty());
}
