use freepass_cli::capture::{
    capture_keys, classify_key, KeyAction, SecretCapture, BACKSPACE, DELETE, SENTINEL,
};

#[test]
fn erase_removes_the_last_byte() {
    let t = capture_keys(&[b'a', b'b', DELETE, b'c', b'\n'], true, true);
    assert_eq!(t.secret, b"ac".to_vec());
    assert!(t.finished);
    assert_eq!(t.consumed, 5);
    assert_eq!(t.notes, vec![b'a', b'b', DELETE, b'c', SENTINEL]);
}

#[test]
fn backspace_erases_too() {
    let t = capture_keys(&[b'a', b'b', BACKSPACE, b'c'], true, true);
    assert_eq!(t.secret, b"ac".to_vec());
    assert!(!t.finished);
    assert_eq!(t.consumed, 4);
}

#[test]
fn erase_on_empty_secret_keeps_it_empty() {
    let t = capture_keys(&[DELETE, DELETE, b'x'], true, true);
    assert_eq!(t.secret, b"x".to_vec());
}

#[test]
fn erase_disabled_keeps_erase_codes() {
    let t = capture_keys(&[b'a', b'b', DELETE, b'c', BACKSPACE], false, true);
    assert_eq!(t.secret, vec![b'a', b'b', DELETE, b'c', BACKSPACE]);
    assert_eq!(t.notes, vec![b'a', b'b', DELETE, b'c', BACKSPACE]);
}

#[test]
fn terminator_ends_capture_at_once() {
    let t = capture_keys(&[b'p', b'w', b'\r', b'x', b'y', b'\n'], true, true);
    assert!(t.finished);
    assert_eq!(t.consumed, 3);
    assert_eq!(t.secret, b"pw".to_vec());
    assert_eq!(t.notes.last(), Some(&SENTINEL));
    assert_eq!(t.notes.iter().filter(|n| **n == SENTINEL).count(), 1);
}

#[test]
fn terminator_first_gives_empty_secret() {
    let t = capture_keys(&[b'\n', b'a'], true, true);
    assert!(t.finished);
    assert_eq!(t.consumed, 1);
    assert!(t.secret.is_empty());
    assert_eq!(t.notes, vec![SENTINEL]);
}

#[test]
fn end_of_input_finishes_only_when_enabled() {
    let t = capture_keys(&[b'a', 4, b'b'], true, true);
    assert!(t.finished);
    assert_eq!(t.secret, b"a".to_vec());
    let u = capture_keys(&[b'a', 4, b'b'], true, false);
    assert!(!u.finished);
    assert_eq!(u.secret, vec![b'a', 4, b'b']);
    assert_eq!(u.notes, vec![b'a', 4, b'b']);
}

#[test]
fn control_codes_are_kept() {
    let t = capture_keys(&[1, 27, b'x'], true, true);
    assert_eq!(t.secret, vec![1, 27, b'x']);
    assert_eq!(t.notes, vec![1, 27, b'x']);
    assert_eq!(classify_key(1, true, true), KeyAction::Append);
    assert_eq!(classify_key(27, true, true), KeyAction::Append);
    assert_eq!(classify_key(DELETE, false, true), KeyAction::Append);
    assert_eq!(classify_key(b' ', true, true), KeyAction::Append);
    assert_eq!(classify_key(200, true, true), KeyAction::Append);
    assert_eq!(classify_key(b'\n', false, false), KeyAction::Finish);
    assert_eq!(classify_key(DELETE, true, false), KeyAction::Erase);
}

#[test]
fn session_feeds_and_wipes() {
    let mut s = SecretCapture::new(true, true);
    assert_eq!(s.feed(b'q'), b'q');
    assert_eq!(s.feed(2), 2);
    assert_eq!(s.feed(b'r'), b'r');
    assert_eq!(s.feed(DELETE), DELETE);
    assert_eq!(s.feed(b's'), b's');
    assert_eq!(s.secret(), &[b'q', 2, b's'][..]);
    assert!(!s.is_finished());
    assert_eq!(s.feed(b'\n'), SENTINEL);
    assert!(s.is_finished());
    s.wipe();
    assert!(s.secret().is_empty());
    assert!(s.into_secret().is_empty());
}

#[test]
fn zero_overwrites_every_byte() {
    let mut s = SecretCapture::new(true, true);
    for b in b"hunter2" {
        s.feed(*b);
    }
    s.zero();
    assert_eq!(s.secret(), &[0u8; 7][..]);
    assert!(!s.is_finished());
    s.wipe();
    assert!(s.secret().is_empty());
}
