use bitforge::messages::log_msg;
use bitforge::messages::send_message;
use bitforge::messages::AppMessage;
use bitforge::messages::ConfirmRequest;
use bitforge::observer::Modal;
use bitforge::observer::ModalAction;
use bitforge::observer::ObserverState;

#[test]
fn log_messages_extend_the_buffer() {
    let mut st = ObserverState::new(100);
    st.apply(AppMessage::Log("hello\n".into()));
    st.apply(AppMessage::Log("world\n".into()));
    assert_eq!(st.log.text(), "hello\nworld\n");
    assert_eq!(st.log.line_count(), 2);
}

#[test]
fn progress_is_clamped_on_receipt() {
    let mut st = ObserverState::new(10);
    st.apply(AppMessage::Progress(300));
    assert_eq!(st.progress, 300);
    st.apply(AppMessage::Progress(1500));
    assert_eq!(st.progress, 1000);
}

#[test]
fn loaded_versions_select_the_newest() {
    let mut st = ObserverState::new(10);
    assert_eq!(st.selected_bitcoin, "Loading...");
    st.apply(AppMessage::BitcoinVersionsLoaded(vec!["v29.0".into(), "v28.1".into()]));
    assert_eq!(st.selected_bitcoin, "v29.0");
    assert_eq!(st.bitcoin_versions, vec!["v29.0", "v28.1"]);
    // The other project's list is untouched.
    assert_eq!(st.selected_electrs, "Loading...");
    st.apply(AppMessage::ElectrsVersionsLoaded(vec![]));
    assert_eq!(st.selected_electrs, "Loading...");
}

#[test]
fn dialogs_become_the_modal_and_close() {
    let mut st = ObserverState::new(10);
    st.apply(AppMessage::ShowDialog {
        title: "Error".into(),
        message: "boom".into(),
        is_error: true,
    });
    assert!(st.has_modal());
    match &st.modal {
        Some(Modal::Alert { title, message, is_error }) => {
            assert_eq!(title, "Error");
            assert_eq!(message, "boom");
            assert!(*is_error);
        }
        _ => panic!("expected an alert modal"),
    }
    st.apply_modal_action(ModalAction::Close);
    assert!(!st.has_modal());
}

#[test]
fn task_done_returns_to_idle() {
    let mut st = ObserverState::new(10);
    st.is_busy = true;
    st.apply(AppMessage::Progress(800));
    st.apply(AppMessage::TaskDone);
    assert!(!st.is_busy);
    assert_eq!(st.progress, 0);
}

#[test]
fn confirmations_are_answered_exactly_once() {
    let mut st = ObserverState::new(10);
    let (tx, mut rx) = tokio::sync::oneshot::channel::<bool>();
    let req = ConfirmRequest {
        title: "Install Missing Dependencies".into(),
        message: "Install?".into(),
        response_tx: tx,
    };
    assert!(!st.has_modal());
    st.accept_confirm(req);
    assert!(st.has_modal());
    st.apply_modal_action(ModalAction::Confirm(true));
    assert!(!st.has_modal());
    assert_eq!(rx.try_recv().unwrap(), true);
}

#[test]
fn a_dropped_reply_slot_reads_as_no() {
    let (tx, mut rx) = tokio::sync::oneshot::channel::<bool>();
    drop(tx);
    // The waiting task maps a closed slot to a declined confirmation.
    let answer = rx.try_recv().unwrap_or(false);
    assert!(!answer);
}

#[test]
fn the_bus_carries_messages_to_one_consumer() {
    let (tx, rx) = std::sync::mpsc::channel::<AppMessage>();
    log_msg(&tx, "a line\n");
    send_message(&tx, AppMessage::TaskDone);
    let tx2 = tx.clone();
    send_message(&tx2, AppMessage::Progress(50));
    match rx.recv().unwrap() {
        AppMessage::Log(s) => assert_eq!(s, "a line\n"),
        _ => panic!("expected the log line first"),
    }
    match rx.recv().unwrap() {
        AppMessage::TaskDone => {}
        _ => panic!("expected the task-done signal second"),
    }
    match rx.recv().unwrap() {
        AppMessage::Progress(v) => assert_eq!(v, 50),
        _ => panic!("expected the progress value third"),
    }
}
