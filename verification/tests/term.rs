use agency::term::{
    find_subslice, sanitize_transcript, sanitize_transcript_with, strip_ansi_control_codes,
    strip_private_modes, visible_len, TranscriptSanitizeSpec,
};

#[test]
fn sanitize_transcript_strips_alt_and_modes() {
    let raw = b"hello\x1b[?1049h\x1b[?2004h world\x1b[?1049l!";
    let got = sanitize_transcript(raw);
    assert_eq!(String::from_utf8_lossy(&got), "hello world!");
}

#[test]
fn sanitize_transcript_rewrites_mixed_params() {
    let raw = b"\x1b[?25;1049lX";
    let got = sanitize_transcript(raw);
    assert_eq!(got, b"\x1b[?25lX");
}

#[test]
fn sanitize_trims_to_last_full_clear() {
    let raw = b"noise\x1b[2Jfresh";
    let got = sanitize_transcript(raw);
    assert_eq!(got, b"fresh");
}

#[test]
fn sanitize_preserves_colors_and_text() {
    let raw = b"\x1b[31mred\x1b[0m and normal";
    let got = sanitize_transcript(raw);
    assert_eq!(got, raw);
}

#[test]
fn sanitize_uses_the_last_of_several_clears() {
    let raw = b"a\x1b[3Jb\x1bcc\x1b[2Jd";
    assert_eq!(sanitize_transcript(raw), b"d");
}

#[test]
fn sanitize_leaves_nothing_when_clear_is_last() {
    let raw = b"abc\x1b[2J";
    assert_eq!(sanitize_transcript(raw), Vec::<u8>::new());
}

#[test]
fn sanitize_without_trimming_keeps_history() {
    let mut spec = TranscriptSanitizeSpec::defaults();
    spec.trim_to_last_full_clear = false;
    let raw = b"noise\x1b[2Jfresh\x1b[?1004h";
    assert_eq!(sanitize_transcript_with(raw, &spec), b"noise\x1b[2Jfresh");
}

#[test]
fn strip_private_modes_leaves_incomplete_sequence() {
    let raw = b"x\x1b[?1049";
    assert_eq!(strip_private_modes(raw, &[1049]), raw.to_vec());
}

#[test]
fn strip_private_modes_keeps_unparsable_and_huge_numbers() {
    // 99999999999 does not fit in u32 and is kept as written; empty parts vanish.
    let raw = b"\x1b[?99999999999;;1049h";
    assert_eq!(strip_private_modes(raw, &[1049]), b"\x1b[?99999999999h");
}

#[test]
fn strip_private_modes_ignores_non_mode_csi() {
    let raw = b"\x1b[1049h\x1b[?1049x";
    assert_eq!(strip_private_modes(raw, &[1049]), raw.to_vec());
}

#[test]
fn find_subslice_finds_first_occurrence() {
    assert_eq!(find_subslice(b"abcabc", b"ca"), Some(2));
    assert_eq!(find_subslice(b"abc", b""), None);
    assert_eq!(find_subslice(b"ab", b"abc"), None);
}

#[test]
fn strip_ansi_control_codes_removes_csi_and_osc() {
    assert_eq!(strip_ansi_control_codes("\x1b[32mok\x1b[39m"), "ok");
    assert_eq!(strip_ansi_control_codes("a\x1b]0;title\x07b"), "ab");
    assert_eq!(strip_ansi_control_codes("a\x1b]8;;x\x1b\\b"), "ab");
    assert_eq!(strip_ansi_control_codes("keep \x1b[12"), "keep \x1b[12");
    assert_eq!(strip_ansi_control_codes("keep \x1b[ unterminated"), "keep \x1b[ unterminated");
}

#[test]
fn visible_len_counts_visible_chars() {
    assert_eq!(visible_len("\x1b[2m+0\x1b[0m"), 2);
    assert_eq!(visible_len("héllo"), 5);
}

#[test]
fn primary_screen_reset_leaves_each_stripped_mode() {
    let bytes = agency::term::primary_screen_reset_bytes();
    assert_eq!(
        bytes,
        b"\x1b[?1049l\x1b[?1047l\x1b[?47l\x1b[?2004l\x1b[?1004l\x1b[>0u\x1b[?25h".to_vec()
    );
}

#[test]
fn strip_removes_csi_and_osc_sequences_only() {
    assert_eq!(strip_ansi_control_codes("a\x1b[1;31mb\x1b[0m"), "ab");
    assert_eq!(strip_ansi_control_codes("\x1b]0;title\x07x"), "x");
    assert_eq!(strip_ansi_control_codes("\x1b]8;;u\x1b\\y"), "y");
    assert_eq!(strip_ansi_control_codes("\x1b[12"), "\x1b[12");
    assert_eq!(strip_ansi_control_codes("\x1b]abc\x1bq"), "\x1b]abc\x1bq");
    assert_eq!(strip_ansi_control_codes("\x1b\x1b[2Kz"), "\x1bz");
}

#[test]
fn csi_intermediates_are_dash_and_slash_only() {
    assert_eq!(strip_ansi_control_codes("\x1b[1 q"), "\x1b[1 q");
    assert_eq!(strip_ansi_control_codes("a\x1b[1-qb\x1b[/@c"), "abc");
}

#[test]
fn cursor_style_sequence_with_a_blank_stays_visible() {
    assert_eq!(visible_len("\x1b[1 q"), 5);
}
