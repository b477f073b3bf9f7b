use omasend::localsend::{Device, TransferEvent};
use omasend::localsend::send::FileFacts;
use omasend::model::{AppState, ComposerItem, SendItem, TransferRate, TransferStatus};

fn text_item(text: &str) -> ComposerItem {
    let text = text.to_string();
    let uploads = SendItem::text_uploads(&text).unwrap();
    ComposerItem::new(SendItem::Text(text), uploads)
}

fn device(id: &str) -> Device {
    Device {
        fingerprint: id.into(),
        alias: id.into(),
        model: "phone".into(),
        host: "127.0.0.1".into(),
        port: 53317,
    }
}

const SECOND: u64 = 1_000_000_000;

#[test]
fn completed_rate_averages_the_whole_transfer_and_stays_fixed() {
    let start = 7 * SECOND;
    let mut rate = TransferRate::default();
    assert_eq!(rate.average, None);
    rate.update(0, start);
    rate.update(1024, start + SECOND);
    rate.update(3072, start + 2 * SECOND);
    rate.finish(4096, start + 4 * SECOND);
    assert_eq!(rate.average, Some(1024));
    rate.update(4096, start + 10 * SECOND);
    assert_eq!(rate.average, Some(1024));
    let mut unmeasured = TransferRate::default();
    unmeasured.finish(4096, start);
    assert_eq!(unmeasured.average, None);
}

#[test]
fn transfer_rate_uses_recent_bytes_and_handles_stalls() {
    let start = 3 * SECOND;
    let mut rate = TransferRate::default();
    rate.update(0, start);
    rate.update(1024, start + SECOND / 2);
    assert_eq!(rate.bytes_per_second, 2048);
    rate.update(1536, start + SECOND);
    assert_eq!(rate.bytes_per_second, 1024);
    rate.update(1536, start + 2 * SECOND);
    assert_eq!(rate.bytes_per_second, 0);
    rate.update(0, start + 3 * SECOND);
    assert_eq!(rate.bytes_per_second, 0);
}

#[test]
fn completed_send_only_removes_its_snapshot_and_releases_clipboard_file() {
    let dir = tempfile::tempdir().unwrap();
    let mut file = tempfile::Builder::new()
        .prefix("screenshot-")
        .suffix(".png")
        .tempfile_in(dir.path())
        .unwrap();
    std::io::Write::write_all(&mut file, b"png").unwrap();
    let path = file.path().to_path_buf();
    let name = path.file_name().unwrap().to_string_lossy().into_owned();
    let temp = std::sync::Arc::new(file.into_temp_path());
    let mime = "image/png".to_string();
    let uploads = SendItem::temporary_uploads(&temp, &mime, name, FileFacts { is_file: true, len: 3 }).unwrap();
    let item = SendItem::TemporaryFile { path: temp, mime };
    let mut state = AppState::default();
    state.composer.push(ComposerItem::new(item, uploads));
    state.track_send("one".into());
    state.composer.push(text_item("later"));
    state.apply(TransferEvent::Completed {
        id: "one".into(),
        paths: vec![],
    });
    assert_eq!(state.composer.len(), 1);
    assert!(matches!(&state.composer[0].item, SendItem::Text(text) if text == "later"));
    assert!(!path.exists());
    assert_eq!(state.transfers[0].status, TransferStatus::Completed);
}

#[test]
fn failure_retains_composer_and_selection_tracks_device_identity() {
    let mut state = AppState::default();
    state.composer.push(text_item("retry"));
    state.track_send("one".into());
    state.apply(TransferEvent::Failed {
        id: "one".into(),
        error: "offline".into(),
    });
    assert_eq!(state.composer.len(), 1);
    for id in ["a", "b"] {
        state.apply(TransferEvent::DeviceFound(device(id)));
    }
    state.navigate(1);
    assert_eq!(state.selected.as_deref(), Some("b"));
    state.apply(TransferEvent::DeviceLost("a".into()));
    assert_eq!(state.selected.as_deref(), Some("b"));
    state.apply(TransferEvent::DeviceLost("b".into()));
    assert!(state.selected.is_none());
}

#[test]
fn discovery_feedback_distinguishes_a_new_peer_from_a_periodic_update() {
    let mut state = AppState::default();
    state.apply(TransferEvent::DiscoveryActive(true));
    assert!(state.discovering);
    let peer = Device {
        fingerprint: "phone".into(),
        alias: "Phone".into(),
        model: "iPhone".into(),
        host: "192.168.1.2".into(),
        port: 53317,
    };
    state.apply(TransferEvent::DeviceFound(peer.clone()));
    assert_eq!(state.discovery_revision, 1);
    state.apply(TransferEvent::DeviceFound(peer.clone()));
    assert_eq!(
        state.discovery_revision, 1,
        "routine probes must not flash the logo"
    );
    state.apply(TransferEvent::DiscoveryActive(false));
    assert!(!state.discovering);
    state.apply(TransferEvent::DeviceLost(peer.fingerprint.clone()));
    state.apply(TransferEvent::DeviceFound(peer));
    assert_eq!(
        state.discovery_revision, 2,
        "returning peers are new discoveries"
    );
}

#[test]
fn acceptance_is_independent_of_the_first_uploaded_byte() {
    let mut state = AppState::default();
    state.track_send("empty-file".into());
    assert!(state.transfers[0].awaiting_acceptance);
    state.apply(TransferEvent::Accepted {
        id: "empty-file".into(),
    });
    assert!(!state.transfers[0].awaiting_acceptance);
    assert_eq!(state.transfers[0].transferred, 0);
}

#[test]
fn active_peer_survives_discovery_expiry_until_transfer_finishes() {
    let mut state = AppState::default();
    let peer = Device {
        fingerprint: "peer".into(),
        alias: "Same name".into(),
        model: "macOS".into(),
        host: "192.168.1.2".into(),
        port: 53317,
    };
    state.apply(TransferEvent::DeviceFound(peer.clone()));
    state.track_send("transfer".into());
    state.apply(TransferEvent::DeviceLost(peer.fingerprint.clone()));
    assert_eq!(state.devices.len(), 1);
    assert_eq!(state.selected.as_deref(), Some("peer"));
    state.apply(TransferEvent::Completed {
        id: "transfer".into(),
        paths: vec![],
    });
    assert!(state.devices.is_empty());
    state.apply(TransferEvent::DeviceFound(peer.clone()));
    state.track_send("next".into());
    state.apply(TransferEvent::DeviceLost(peer.fingerprint.clone()));
    state.apply(TransferEvent::DeviceFound(peer));
    state.apply(TransferEvent::Cancelled { id: "next".into() });
    assert_eq!(
        state.devices.len(),
        1,
        "rediscovered peers remain after transfer"
    );
}

#[test]
fn navigation_wraps_around_the_device_list() {
    let mut state = AppState::default();
    state.navigate(1);
    assert!(state.selected.is_none());
    for id in ["a", "b", "c"] {
        state.apply(TransferEvent::DeviceFound(device(id)));
    }
    state.selected = None;
    state.navigate(-1);
    assert_eq!(state.selected.as_deref(), Some("c"));
    state.navigate(2);
    assert_eq!(state.selected.as_deref(), Some("b"));
    state.navigate(-4);
    assert_eq!(state.selected.as_deref(), Some("a"));
}

#[test]
fn session_history_stays_bounded() {
    let mut state = AppState::default();
    for index in 0..105 {
        let id = format!("t{index}");
        state.track_send(id.clone());
        state.apply(TransferEvent::Cancelled { id });
    }
    assert_eq!(state.transfers.len(), 100);
    assert_eq!(state.transfers[0].id, "t5");
    state.clear_transfer_history();
    assert!(state.transfers.is_empty());
}

#[test]
fn received_text_stays_with_its_transfer() {
    let mut state = AppState::default();
    state.apply(TransferEvent::Started {
        id: "in".into(),
        peer: "Phone".into(),
        sending: false,
        files: Vec::new(),
        total: 5,
    });
    assert_eq!(state.transfers[0].received_text, None);
    state.apply(TransferEvent::ReceivedText { id: "in".into(), text: "hello".into() });
    assert_eq!(state.transfers[0].received_text.as_deref(), Some("hello"));
    state.apply(TransferEvent::Completed { id: "in".into(), paths: Vec::new() });
    assert_eq!(state.transfers[0].status, TransferStatus::Completed);
    assert_eq!(state.transfers[0].received_text.as_deref(), Some("hello"));
}

#[test]
fn composer_entries_get_hyphenated_ids() {
    let item = text_item("hi");
    assert_eq!(item.id.len(), 36);
    for (i, c) in item.id.chars().enumerate() {
        if [8, 13, 18, 23].contains(&i) {
            assert_eq!(c, '-');
        } else {
            assert!(c.is_ascii_hexdigit() && !c.is_ascii_uppercase());
        }
    }
}

#[test]
fn sending_needs_a_node_a_device_and_something_to_send() {
    let mut state = AppState::default();
    assert!(!omasend::views::can_send(true, &state, false));
    state.apply(TransferEvent::DeviceFound(device("peer")));
    assert!(!omasend::views::can_send(true, &state, false));
    state.composer.push(text_item("hello"));
    assert!(omasend::views::can_send(true, &state, false));
    assert!(!omasend::views::can_send(false, &state, false));
    assert!(!omasend::views::can_send(true, &state, true));
    state.track_send("one".into());
    assert!(!omasend::views::can_send(true, &state, false));
}
