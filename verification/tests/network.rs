use omasend::localsend::adapter::{ConfigError, downloads_from};
use std::path::PathBuf;
use omasend::localsend::actor::{Action, Actor, Answer, SavedFile};
use omasend::localsend::adapter::{Interface, OfferEntry, OfferError, check_request, scan_plan, scan_targets, validate_offer};
use omasend::localsend::discovery::{Channel, PeerRecord, ProbeFailures, multicast_unavailable, publish_discovery_snapshot};
use omasend::localsend::receive::{ReceiveError, candidate_name, check_complete, count_chunk, relative_path};
use omasend::localsend::{Device, OfferedFile, TransferEvent};
use omasend::system::WallTime;

fn ip(a: u8, b: u8, c: u8, d: u8) -> u32 {
    (u32::from(a) << 24) | (u32::from(b) << 16) | (u32::from(c) << 8) | u32::from(d)
}

#[test]
fn wifi_slash_23_covers_both_halves_and_large_ranges_are_bounded() {
    assert_eq!(
        scan_targets(ip(10, 20, 94, 239), ip(255, 255, 254, 0)),
        vec![ip(10, 20, 94, 239), ip(10, 20, 95, 0)]
    );
    assert_eq!(
        scan_targets(ip(10, 20, 94, 239), ip(255, 255, 0, 0)),
        vec![ip(10, 20, 94, 239)]
    );
}

#[test]
fn excludes_public_addresses_vpn_benchmark_ranges_and_small_subnets() {
    for address in [ip(8, 8, 8, 8), ip(198, 18, 0, 1), ip(127, 0, 0, 1)] {
        assert!(scan_targets(address, ip(255, 255, 255, 0)).is_empty());
    }
    assert!(scan_targets(ip(10, 0, 0, 2), ip(255, 255, 255, 252)).is_empty());
}

#[test]
fn probe_plans_merge_interfaces_in_order() {
    let interfaces = vec![
        Interface { ip: ip(192, 168, 1, 20), mask: ip(255, 255, 252, 0), loopback: false, point_to_point: false },
        Interface { ip: ip(192, 168, 2, 7), mask: ip(255, 255, 255, 0), loopback: false, point_to_point: false },
        Interface { ip: ip(127, 0, 0, 1), mask: ip(255, 0, 0, 0), loopback: true, point_to_point: false },
        Interface { ip: ip(10, 0, 0, 5), mask: ip(255, 255, 255, 0), loopback: false, point_to_point: true },
    ];
    assert_eq!(
        scan_plan(&interfaces),
        vec![ip(192, 168, 0, 0), ip(192, 168, 1, 20), ip(192, 168, 2, 0), ip(192, 168, 2, 7), ip(192, 168, 3, 0)]
    );
    assert!(scan_plan(&Vec::new()).is_empty());
}

fn entry(key: &str, name: &str, size: u64) -> OfferEntry {
    OfferEntry { key: key.into(), id: key.into(), file_name: name.into(), size, file_type: "text/plain".into() }
}

#[test]
fn offers_are_checked_before_the_user_sees_them() {
    assert_eq!(validate_offer(&vec![]), Err(OfferError::FileCount));
    assert_eq!(validate_offer(&vec![entry("1", "a.txt", 1)]), Ok(()));
    let mut mismatched = entry("1", "a.txt", 1);
    mismatched.id = "2".into();
    assert_eq!(validate_offer(&vec![mismatched]), Err(OfferError::IdMismatch));
    assert!(validate_offer(&vec![entry("1", "../escape", 1)]).is_err());
    assert_eq!(
        validate_offer(&vec![entry("1", "a", u64::MAX), entry("2", "b", 1)]),
        Err(OfferError::TooLarge)
    );
    assert_eq!(check_request(&vec![entry("1", "a.txt", 1)], false), Err(OfferError::Unencrypted));
    assert_eq!(OfferError::Unencrypted.message(), "An encrypted connection is required");
}

#[test]
fn received_names_and_streams_are_checked() {
    assert_eq!(relative_path("dir/file.txt"), Ok(PathBuf::from("dir/file.txt")));
    assert!(relative_path("a/../b").is_err());
    assert!(relative_path("").is_err());
    assert_eq!(candidate_name("photo.tar.gz", 0), "photo.tar.gz");
    assert_eq!(candidate_name("photo.png", 2), "photo (2).png");
    assert_eq!(count_chunk(10, 5, 15), Ok(15));
    assert_eq!(count_chunk(10, 6, 15), Err(ReceiveError::Overlong));
    assert_eq!(count_chunk(u64::MAX, 1, u64::MAX), Err(ReceiveError::SizeOverflow));
    assert_eq!(check_complete(3, 4), Err(ReceiveError::Incomplete { received: 3, offered: 4 }));
    assert_eq!(
        ReceiveError::Incomplete { received: 3, offered: 4 }.message(),
        "Incomplete file: received 3 of 4 bytes"
    );
    assert_eq!(ReceiveError::Overlong.message(), "Received more data than offered");
}

fn peer() -> Device {
    Device {
        fingerprint: "fp".into(),
        alias: "Phone".into(),
        model: "iPhone".into(),
        host: "192.168.1.2".into(),
        port: 53317,
    }
}

fn saved(path: &str, text: Option<&str>) -> SavedFile {
    SavedFile { path: path.into(), text: text.map(str::to_owned) }
}

fn request(actor: &mut Actor, session: &str, files: Vec<OfferEntry>, now: u64) -> Vec<Action> {
    actor.request(
        session.into(),
        "192.168.1.9".into(),
        "Office".into(),
        Some("Desktop".into()),
        53317,
        Some("cert".into()),
        files,
        now,
    )
}

#[test]
fn refusing_a_request_ends_the_session_before_any_file_arrives() {
    let mut actor = Actor::new();
    let actions = request(&mut actor, "s1", vec![entry("b", "b.txt", 2), entry("a", "a.txt", 1)], 0);
    assert_eq!(actions.len(), 1);
    match &actions[0] {
        Action::Emit(TransferEvent::IncomingRequest { id, peer, files }) => {
            assert_eq!(id, "s1");
            assert_eq!(peer.alias, "Office");
            assert_eq!(peer.host, "192.168.1.9");
            let names: Vec<&str> = files.iter().map(|f| f.name.as_str()).collect();
            assert_eq!(names, vec!["a.txt", "b.txt"]);
        }
        other => panic!("unexpected action {other:?}"),
    }
    assert!(!actor.upload("s1", "a", 1), "nothing is received before acceptance");
    assert!(matches!(actor.decision("s1", false), Some(Answer::Decline)));
    let actions = actor.decided("s1", false, true, 2);
    assert!(matches!(&actions[..], [Action::Emit(TransferEvent::Cancelled { id })] if id == "s1"));
    assert!(actor.incoming().is_none());
    assert!(!actor.upload("s1", "a", 3));
}

#[test]
fn accepted_sessions_receive_and_complete() {
    let mut actor = Actor::new();
    request(&mut actor, "s1", vec![entry("a", "a.txt", 1), entry("b", "b.txt", 2)], 0);
    let busy = request(&mut actor, "s2", vec![entry("c", "c.txt", 1)], 0);
    assert!(matches!(&busy[..], [Action::AnswerNew(Answer::Decline)]));
    match actor.decision("s1", true) {
        Some(Answer::Accept(keys)) => assert_eq!(keys, vec!["a".to_string(), "b".to_string()]),
        other => panic!("unexpected answer {other:?}"),
    }
    let actions = actor.decided("s1", true, true, 5);
    assert!(matches!(&actions[..], [Action::Emit(TransferEvent::Started { total: 3, sending: false, .. })]));
    assert!(actor.upload("s1", "a", 6));
    assert!(!actor.upload("s1", "zzz", 6));
    let progress = actor.progress("s1", "a".into(), 1, 7);
    assert!(matches!(&progress[..], [Action::Emit(TransferEvent::Progress { transferred: 1, total: 3, .. })]));
    let progress = actor.progress("s1", "b".into(), 2, 8);
    assert!(matches!(&progress[..], [Action::Emit(TransferEvent::Progress { transferred: 3, total: 3, .. })]));
    assert!(actor.receive_finished("s1", Ok(saved("/tmp/a.txt", None))).is_empty());
    let done = actor.receive_finished("s1", Ok(saved("/tmp/b.txt", None)));
    match &done[..] {
        [Action::Emit(TransferEvent::Completed { id, paths })] => {
            assert_eq!(id, "s1");
            assert_eq!(paths.len(), 2);
        }
        other => panic!("unexpected actions {other:?}"),
    }
    assert!(actor.incoming().is_none());
}

#[test]
fn invalid_and_idle_sessions_end_with_their_reason() {
    let mut actor = Actor::new();
    let actions = actor.request("s1".into(), "h".into(), "a".into(), None, 1, None, vec![entry("a", "a.txt", 1)], 0);
    assert!(matches!(&actions[0], Action::AnswerNew(Answer::Decline)));
    assert!(matches!(&actions[1], Action::Emit(TransferEvent::Failed { error, .. }) if error == "An encrypted connection is required"));
    request(&mut actor, "s2", vec![entry("a", "a.txt", 1)], 0);
    assert!(actor.tick(300_000_000_000).is_empty());
    let actions = actor.tick(300_000_000_001);
    assert!(matches!(&actions[0], Action::CancelIncoming));
    assert!(matches!(&actions[1], Action::AnswerHeld(Answer::Decline)));
    assert!(matches!(&actions[2], Action::EndSession(id) if id == "s2"));
    assert!(matches!(&actions[3], Action::Emit(TransferEvent::Cancelled { .. })));
    request(&mut actor, "s3", vec![entry("a", "a.txt", 1)], 0);
    actor.decided("s3", true, true, 10);
    let failed = actor.receive_finished("s3", Err("File checksum did not match".into()));
    assert!(matches!(&failed[..], [Action::CancelIncoming, Action::EndSession(_), Action::Emit(TransferEvent::Failed { .. })]));
}

#[test]
fn cancelled_sends_report_cancellation_whatever_the_task_returned() {
    let mut actor = Actor::new();
    let files = vec![OfferedFile { name: "a".into(), size: 4, mime: "text/plain".into() }];
    let actions = actor.start_send("t1".into(), &peer(), files);
    assert!(matches!(&actions[..], [Action::Emit(TransferEvent::Started { total: 4, sending: true, .. }), Action::SpawnSend(_)]));
    let too_big = vec![
        OfferedFile { name: "a".into(), size: u64::MAX, mime: String::new() },
        OfferedFile { name: "b".into(), size: 1, mime: String::new() },
    ];
    let refused = actor.start_send("t2".into(), &peer(), too_big);
    assert!(matches!(&refused[..], [Action::Emit(TransferEvent::Failed { error, .. })] if error == "Transfer is too large"));
    let cancel = actor.cancel("t1");
    assert!(matches!(&cancel[..], [Action::CancelOutgoing(id)] if id == "t1"));
    let event = actor.send_finished("t1", Ok(()));
    assert!(matches!(event, TransferEvent::Cancelled { .. }));
    assert!(actor.outgoing().is_empty());
    actor.start_send("t3".into(), &peer(), vec![]);
    assert!(matches!(actor.send_finished("t3", Err("boom".into())), TransferEvent::Failed { error, .. } if error == "boom"));
}

#[test]
fn remote_cancellations_stop_the_transfers_they_name() {
    let mut actor = Actor::new();
    actor.start_send("t1".into(), &peer(), vec![]);
    actor.start_send("t2".into(), &peer(), vec![]);
    let remotes = vec![Some("remote-1".to_string()), Some("remote-2".to_string())];
    let actions = actor.cancel_received("192.168.1.2", "remote-2", &remotes);
    assert!(matches!(&actions[..], [Action::CancelOutgoing(id)] if id == "t2"));
    assert!(actor.cancel_received("10.0.0.1", "remote-1", &remotes).is_empty());
    assert!(actor.outgoing()[1].cancelled);
    assert!(!actor.outgoing()[0].cancelled);
    let stop = actor.shutdown();
    assert_eq!(stop.len(), 2);
}

fn record(fp: &str, alias: &str, seen: u64) -> PeerRecord {
    PeerRecord {
        fingerprint: fp.into(),
        alias: alias.into(),
        model: Some("Test desktop".into()),
        channel: Some(Channel { host: "127.0.0.1".into(), port: 45678, https: true }),
        last_seen: Some(WallTime { secs: seen, nanos: 0 }),
    }
}

#[test]
fn discovery_snapshots_publish_changes_and_expire_quiet_peers() {
    let records: Vec<PeerRecord> = (0..8).map(|i| record(&format!("peer-{i}"), "Computer", 100)).collect();
    let now = WallTime { secs: 100, nanos: 0 };
    let first = publish_discovery_snapshot(&Vec::new(), &records, now);
    assert_eq!(first.devices.len(), 8);
    assert_eq!(first.events.len(), 8);
    assert!(first.events.iter().all(|event| matches!(event, TransferEvent::DeviceFound(_))));
    let again = publish_discovery_snapshot(&first.devices, &records, now);
    assert!(again.events.is_empty(), "unchanged peers must not retrigger GUI work");
    let mut renamed = records;
    renamed[3].alias = "Renamed".into();
    let changed = publish_discovery_snapshot(&again.devices, &renamed, now);
    assert!(matches!(&changed.events[..], [TransferEvent::DeviceFound(d)] if d.alias == "Renamed"));
    let later = publish_discovery_snapshot(&changed.devices, &renamed, WallTime { secs: 116, nanos: 0 });
    assert!(later.devices.is_empty());
    assert_eq!(later.events.len(), 8);
    assert!(later.events.iter().all(|event| matches!(event, TransferEvent::DeviceLost(_))));
    let mut plain = record("http", "Old", 100);
    plain.channel = Some(Channel { host: "h".into(), port: 1, https: false });
    assert!(publish_discovery_snapshot(&Vec::new(), &vec![plain], now).devices.is_empty());
}

#[test]
fn identity_failures_are_reported_once_per_host_per_minute() {
    let mut failures = ProbeFailures::new();
    let mismatch = "server certificate fingerprint mismatch";
    let first = failures.probe_failed("127.0.0.1", "Office desktop", mismatch, 0);
    assert!(matches!(first, Some(TransferEvent::NetworkError(m)) if m == "Nearby device identity could not be verified: Office desktop (127.0.0.1)"));
    assert!(failures.probe_failed("127.0.0.1", "Office desktop", mismatch, 1).is_none());
    assert!(failures.probe_failed("127.0.0.2", "Other desktop", "connection refused", 2).is_none());
    let other = failures.probe_failed("127.0.0.2", "Other desktop", mismatch, 3);
    assert!(matches!(other, Some(TransferEvent::NetworkError(m)) if m == "Nearby device identity could not be verified: Other desktop (127.0.0.2)"));
    assert!(failures.probe_failed("127.0.0.1", "Office desktop", mismatch, 60_000_000_001).is_some());
    assert!(matches!(
        multicast_unavailable("multicast sockets stopped"),
        TransferEvent::NetworkError(m) if m == "Multicast unavailable; trying local network discovery: multicast sockets stopped"
    ));
}

#[test]
fn downloads_prefer_the_platform_folder_then_the_home_folder() {
    assert_eq!(
        downloads_from(Some(PathBuf::from("/data/Downloads")), Some(PathBuf::from("/home/me"))),
        Ok(PathBuf::from("/data/Downloads"))
    );
    assert_eq!(
        downloads_from(None, Some(PathBuf::from("/home/me"))),
        Ok(PathBuf::from("/home/me/Downloads"))
    );
    assert_eq!(downloads_from(None, None), Err(ConfigError::DownloadsMissing));
}

#[test]
fn received_message_text_is_reported_before_completion() {
    let text = "你好\n  long message with whitespace\n".repeat(100);
    let mut actor = Actor::new();
    request(&mut actor, "m1", vec![entry("msg", "message.txt", text.len() as u64)], 0);
    actor.decided("m1", true, true, 1);
    let done = actor.receive_finished("m1", Ok(saved("/tmp/message.txt", Some(&text))));
    match &done[..] {
        [Action::Emit(TransferEvent::ReceivedText { id, text: got }), Action::Emit(TransferEvent::Completed { id: done_id, paths })] => {
            assert_eq!(id, "m1");
            assert_eq!(got, &text);
            assert_eq!(done_id, "m1");
            assert_eq!(paths.len(), 1);
        }
        other => panic!("unexpected actions {other:?}"),
    }
}
