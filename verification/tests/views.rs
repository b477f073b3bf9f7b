use omasend::localsend::OfferedFile;
use omasend::model::{Transfer, TransferStatus};
use omasend::system::WallTime;
use omasend::views::{
    BackAction, Overlays, accepts_input, back_action, connection_status, send_button_word,
    transfer_progress_numbers, transfer_status_word,
};

fn transfer(id: &str, sending: bool, status: TransferStatus) -> Transfer {
    Transfer::restored(
        id.into(),
        "peer".into(),
        sending,
        vec![
            OfferedFile { name: "a.txt".into(), size: 100, mime: "text/plain".into() },
            OfferedFile { name: "b.txt".into(), size: 50, mime: "text/plain".into() },
        ],
        150,
        Vec::new(),
        status,
        WallTime { secs: 1_700_000_000, nanos: 0 },
    )
}

fn closed() -> Overlays {
    Overlays {
        about_open: false,
        logs_open: false,
        history_expanded: false,
        preview_open: false,
        request_open: false,
    }
}

#[test]
fn escape_leaves_the_innermost_layer_first() {
    let transfers = vec![
        transfer("old", true, TransferStatus::Active),
        transfer("done", true, TransferStatus::Completed),
        transfer("new", false, TransferStatus::Active),
    ];
    let all = Overlays {
        about_open: true,
        logs_open: true,
        history_expanded: true,
        preview_open: true,
        request_open: true,
    };
    assert_eq!(back_action(all, &transfers), BackAction::CloseAbout);
    assert_eq!(back_action(Overlays { about_open: false, ..all }, &transfers), BackAction::CloseLogs);
    let request = Overlays { request_open: true, ..closed() };
    assert_eq!(back_action(request, &transfers), BackAction::DeclineRequest);
    assert_eq!(
        back_action(closed(), &transfers),
        BackAction::CancelTransfer("new".into())
    );
    let finished = vec![transfer("done", true, TransferStatus::Completed)];
    assert_eq!(back_action(closed(), &finished), BackAction::ClearError);
}

#[test]
fn input_is_taken_only_on_an_uncovered_idle_screen() {
    assert!(accepts_input(false, closed()));
    assert!(!accepts_input(true, closed()));
    assert!(!accepts_input(false, Overlays { preview_open: true, ..closed() }));
}

#[test]
fn send_button_and_status_words_follow_the_transfers() {
    assert_eq!(send_button_word(&Vec::new()), "Send");
    let sending = transfer("s", true, TransferStatus::Active);
    assert_eq!(transfer_status_word(&sending), "Sending");
    assert_eq!(send_button_word(&vec![sending]), "Sending");
    let mut waiting = transfer("w", true, TransferStatus::Active);
    waiting.awaiting_acceptance = true;
    assert_eq!(transfer_status_word(&waiting), "Waiting for receiver");
    assert_eq!(send_button_word(&vec![waiting]), "Waiting for receiver");
    let receiving = transfer("r", false, TransferStatus::Active);
    assert_eq!(transfer_status_word(&receiving), "Receiving");
    assert_eq!(send_button_word(&vec![receiving]), "Send");
    assert_eq!(transfer_status_word(&transfer("c", false, TransferStatus::Completed)), "Received");
    assert_eq!(transfer_status_word(&transfer("c", true, TransferStatus::Completed)), "Sent");
    assert_eq!(
        transfer_status_word(&transfer("f", true, TransferStatus::Failed("boom".into()))),
        "Failed"
    );
}

#[test]
fn progress_counts_within_the_item_in_flight() {
    let mut t = transfer("t", true, TransferStatus::Active);
    t.transferred = 120;
    assert_eq!(transfer_progress_numbers(&t, None), (120, 150, 0));
    assert_eq!(transfer_progress_numbers(&t, Some((0, 100))), (100, 100, 0));
    assert_eq!(transfer_progress_numbers(&t, Some((100, 50))), (20, 50, 0));
    t.transferred = 0;
    assert_eq!(transfer_progress_numbers(&t, Some((100, 50))), (0, 50, 0));
}

#[test]
fn connection_word_reports_the_network_state() {
    assert_eq!(connection_status(true, false, 3), "Connecting…");
    assert_eq!(connection_status(false, false, 3), "Disconnected");
    assert_eq!(connection_status(false, true, 0), "Searching for devices…");
    assert_eq!(connection_status(false, true, 2), "Connected");
}
