use evno::{cancel_when, CancelToken, Signal};
use tokio_util::sync::CancellationToken;

#[test]
fn cancel_when_cancels_only_on_stop() {
    let shared = CancellationToken::new();
    let mut token = CancelToken::new(shared.clone());
    cancel_when(false, &mut token);
    assert!(!shared.is_cancelled());
    assert_eq!(token.handled_signal(), Signal::Handled { cancelled: false });
    cancel_when(true, &mut token);
    assert!(shared.is_cancelled());
    assert!(token.token().is_cancelled());
    assert_eq!(token.handled_signal(), Signal::Handled { cancelled: true });
    assert_eq!(token.began_signal(), Signal::Began { cancelled: true });
}

#[test]
fn a_token_cancelled_through_a_clone_is_reported() {
    let shared = CancellationToken::new();
    let token = CancelToken::new(shared.clone());
    assert_eq!(token.began_signal(), Signal::Began { cancelled: false });
    shared.cancel();
    assert_eq!(token.began_signal(), Signal::Began { cancelled: true });
}
