use sidecar_supervisor::ports::{parse_pid, pids_from_listing, sidecar_ports};
use sidecar_supervisor::relay::{channel_name, relay_all, relay_event, StreamKind, WorkerEvent};

#[test]
fn relay_keeps_order_and_skips_non_lines() {
    let events = vec![
        WorkerEvent::Stdout(b"ready".to_vec()),
        WorkerEvent::Stderr(b"warn".to_vec()),
        WorkerEvent::Other,
        WorkerEvent::Stdout(b"done".to_vec()),
        WorkerEvent::Terminated,
    ];
    let lines = relay_all(&events);
    assert_eq!(lines.len(), 3);
    assert_eq!(lines[0].stream, StreamKind::Stdout);
    assert_eq!(lines[0].text, "ready");
    assert_eq!(lines[1].stream, StreamKind::Stderr);
    assert_eq!(lines[1].text, "warn");
    assert_eq!(lines[2].stream, StreamKind::Stdout);
    assert_eq!(lines[2].text, "done");
}

#[test]
fn relay_in_batches_matches_all_at_once() {
    let events = vec![
        WorkerEvent::Stdout(b"a".to_vec()),
        WorkerEvent::Stderr(b"b".to_vec()),
        WorkerEvent::Stdout(b"c".to_vec()),
    ];
    let whole: Vec<String> = relay_all(&events).into_iter().map(|l| l.text).collect();
    let one_by_one: Vec<String> = events.iter().filter_map(relay_event).map(|l| l.text).collect();
    assert_eq!(whole, one_by_one);
    assert_eq!(whole, vec!["a", "b", "c"]);
}

#[test]
fn relay_replaces_invalid_bytes() {
    let line = relay_event(&WorkerEvent::Stderr(vec![b'o', 0xff, b'k'])).unwrap();
    assert_eq!(line.stream, StreamKind::Stderr);
    assert_eq!(line.text, "o\u{fffd}k");
    let empty = relay_event(&WorkerEvent::Stdout(Vec::new())).unwrap();
    assert_eq!(empty.text, "");
    assert!(relay_event(&WorkerEvent::Terminated).is_none());
}

#[test]
fn channel_names() {
    assert_eq!(channel_name(StreamKind::Stdout), "sidecar-stdout");
    assert_eq!(channel_name(StreamKind::Stderr), "sidecar-stderr");
}

#[test]
fn ports_list() {
    assert_eq!(sidecar_ports(), vec![8008, 8009, 8010, 8011, 8012]);
}

#[test]
fn parse_pid_cases() {
    assert_eq!(parse_pid(b"123"), Some(123));
    assert_eq!(parse_pid(b"+5"), Some(5));
    assert_eq!(parse_pid(b"+"), None);
    assert_eq!(parse_pid(b"++5"), None);
    assert_eq!(parse_pid(b" 42"), None);
    assert_eq!(parse_pid(b"42\r"), None);
    assert_eq!(parse_pid(b""), None);
    assert_eq!(parse_pid(b"12a"), None);
    assert_eq!(parse_pid(b"-5"), None);
    assert_eq!(parse_pid(b"007"), Some(7));
    assert_eq!(parse_pid(b"4294967295"), Some(4294967295));
    assert_eq!(parse_pid(b"4294967296"), None);
    assert_eq!(parse_pid(b"99999999999999999999"), None);
}

#[test]
fn listing_pids() {
    assert_eq!(pids_from_listing(b"123\n456\n"), vec![123, 456]);
    assert_eq!(pids_from_listing(b"\n\n 7\n\nx\n+8 \t"), vec![7, 8]);
    assert_eq!(pids_from_listing(b"1\n 7\n2"), vec![1, 2]);
    assert_eq!(pids_from_listing(b""), Vec::<u32>::new());
    assert_eq!(pids_from_listing(b"  \n "), Vec::<u32>::new());
}

#[test]
fn listing_trims_unicode_whitespace_only_at_the_ends() {
    assert_eq!(pids_from_listing(b"\xc2\xa05\xe3\x80\x80"), vec![5]);
    assert_eq!(pids_from_listing(b"5\xe2\x80\xa8\n6"), vec![6]);
    assert_eq!(pids_from_listing(b"5\xff\n6"), vec![6]);
    assert_eq!(pids_from_listing(b"5\xe2\x80"), Vec::<u32>::new());
}
