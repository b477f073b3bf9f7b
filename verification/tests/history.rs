use omasend::localsend::OfferedFile;
use omasend::model::history::{LIMIT, Outcome, Record, kept_history};
use omasend::model::{Transfer, TransferStatus};
use omasend::system::WallTime;

fn transfer(id: &str, status: TransferStatus) -> Transfer {
    Transfer::restored(
        id.into(),
        "peer".into(),
        true,
        vec![OfferedFile {
            name: "a.txt".into(),
            size: 3,
            mime: "text/plain".into(),
        }],
        3,
        Vec::new(),
        status,
        WallTime { secs: 1_700_000_000, nanos: 0 },
    )
}

#[test]
fn only_finished_transfers_round_trip() {
    let records: Vec<Record> = [
        transfer("done", TransferStatus::Completed),
        transfer("running", TransferStatus::Active),
        transfer("broken", TransferStatus::Failed("boom".into())),
    ]
    .iter()
    .filter_map(Record::of)
    .collect();
    assert_eq!(records.len(), 2);
    let restored: Vec<Transfer> = records
        .into_iter()
        .map(|record| {
            let present = vec![true; record.paths.len()];
            record.into_transfer(&present)
        })
        .collect();
    assert_eq!(restored[0].id, "done");
    assert_eq!(restored[0].status, TransferStatus::Completed);
    assert_eq!(restored[0].files[0].name, "a.txt");
    assert_eq!(restored[1].status, TransferStatus::Failed("boom".into()));
    assert_eq!(restored[1].when.secs, 1_700_000_000);
}

#[test]
fn a_missing_received_file_loses_its_actions() {
    let mut record = Record::of(&transfer("done", TransferStatus::Completed)).unwrap();
    let present = tempfile::NamedTempFile::new().unwrap();
    record.paths = vec![present.path().to_path_buf(), "/nonexistent/gone.txt".into()];
    let flags: Vec<bool> = record.paths.iter().map(|path| path.exists()).collect();
    let restored = record.into_transfer(&flags);
    assert_eq!(restored.paths, vec![present.path().to_path_buf()]);
}

#[test]
fn stored_json_keeps_the_newest_records_within_the_limit() {
    let transfers: Vec<Transfer> = (0..LIMIT + 20)
        .map(|index| transfer(&format!("t{index}"), TransferStatus::Completed))
        .collect();
    let records = kept_history(&transfers);
    assert_eq!(records.len(), LIMIT);
    assert_eq!(records.first().unwrap().id, "t20");
    assert_eq!(records.last().unwrap().id, format!("t{}", LIMIT + 19));
}

#[test]
fn history_skips_active_transfers_and_keeps_failure_text() {
    let transfers = vec![
        transfer("a", TransferStatus::Active),
        transfer("b", TransferStatus::Cancelled),
        transfer("c", TransferStatus::Failed("lost".into())),
    ];
    let records = kept_history(&transfers);
    assert_eq!(records.len(), 2);
    assert_eq!(records[0].outcome, Outcome::Cancelled);
    assert_eq!(records[0].error, None);
    assert_eq!(records[1].outcome, Outcome::Failed);
    assert_eq!(records[1].error.as_deref(), Some("lost"));
    assert_eq!(records[1].when, 1_700_000_000);
    assert!(Record::of(&transfers[0]).is_none());
    let mut record = Record::of(&transfers[2]).unwrap();
    record.error = None;
    let restored = record.into_transfer(&vec![]);
    assert_eq!(restored.status, TransferStatus::Failed(String::new()));
    assert!(restored.composer_ids.is_empty());
    assert_eq!(restored.transferred, 0);
}
