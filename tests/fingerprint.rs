use freepass_cli::capture::SENTINEL;
use freepass_cli::fingerprint::{feedback, fingerprint, paint_cue, MIN_CUE_LEN};

#[test]
fn short_secrets_show_the_placeholder() {
    let samples: Vec<&[u8]> = vec![b"", b"a", b"ab", b"secret", b"zzzzzz", b"\x00\x01\x02"];
    for s in samples {
        assert!(s.len() < MIN_CUE_LEN);
        assert_eq!(fingerprint(s), "~~~~~~");
    }
}

#[test]
fn threshold_is_seven_bytes() {
    assert_eq!(MIN_CUE_LEN, 7);
    assert_eq!(fingerprint(b"abcdef"), "~~~~~~");
    assert_ne!(fingerprint(b"abcdefg"), "~~~~~~");
}

#[test]
fn cue_paints_the_first_three_hash_colours() {
    // The colour hash of this phrase starts with 191, 35, 175.
    assert_eq!(
        fingerprint(b"Correct Horse Battery Staple"),
        "\x1b[38;5;191m~~\x1b[38;5;35m~~\x1b[38;5;175m~~\x1b[0m"
    );
}

#[test]
fn cue_is_deterministic() {
    let s = b"correct horse battery";
    assert_eq!(fingerprint(s), fingerprint(s));
    let t = s.to_vec();
    assert_eq!(fingerprint(&t), fingerprint(s));
}

#[test]
fn one_changed_byte_changes_the_cue() {
    let base = b"hunter2hunter2".to_vec();
    let cue = fingerprint(&base);
    let mut differing = 0;
    let mut tried = 0;
    for i in 0..base.len() {
        let mut other = base.clone();
        other[i] ^= 1;
        tried += 1;
        if fingerprint(&other) != cue {
            differing += 1;
        }
    }
    assert!(differing * 10 >= tried * 9);
}

#[test]
fn feedback_shows_prompt_and_cue() {
    assert_eq!(feedback(b"abc", b'c'), "\rPassword: ~~~~~~");
    assert_eq!(
        feedback(b"Correct Horse Battery Staple", b'e'),
        "\rPassword: \x1b[38;5;191m~~\x1b[38;5;35m~~\x1b[38;5;175m~~\x1b[0m"
    );
}

#[test]
fn feedback_clears_the_line_on_sentinel() {
    assert_eq!(feedback(b"whatever secret", SENTINEL), "\r                \r");
}

#[test]
fn paint_cue_uses_only_the_first_three_colours() {
    assert_eq!(
        paint_cue(&[191, 35, 175, 178, 148, 70, 82, 37]),
        "\x1b[38;5;191m~~\x1b[38;5;35m~~\x1b[38;5;175m~~\x1b[0m"
    );
    assert_eq!(
        paint_cue(&[191, 35, 175, 16, 17, 18, 19, 20]),
        paint_cue(&[191, 35, 175, 231, 230, 229, 228, 227])
    );
}

#[test]
fn paint_cue_merges_repeated_colours() {
    assert_eq!(paint_cue(&[20, 20, 20, 0, 0, 0, 0, 0]), "\x1b[38;5;20m~~~~~~\x1b[0m");
    assert_eq!(paint_cue(&[20, 20, 21, 0, 0, 0, 0, 0]), "\x1b[38;5;20m~~~~\x1b[38;5;21m~~\x1b[0m");
}
