use cli_warden::output_pump::{read_failure, OutputPump};
use cli_warden::redaction::{load_secrets, RedactError, Redactor};
use cli_warden::utf8_input::drain_utf8_into_text;

fn redactor(secrets: &[&str]) -> Redactor {
    Redactor::from_secrets(secrets.iter().map(|s| s.to_string()).collect()).expect("build redactor")
}

fn pumped(redactor: &Redactor, chunks: &[&[u8]]) -> Result<String, String> {
    let mut pump = OutputPump::new();
    let mut out = String::new();
    for chunk in chunks {
        for packet in pump.feed(chunk, redactor)? {
            out.push_str(&packet);
        }
    }
    for packet in pump.finish(redactor)? {
        out.push_str(&packet);
    }
    Ok(out)
}

#[test]
fn trailing_secret_prefix_len_detects_suffix_candidate() {
    let redactor = Redactor::from_secrets(vec!["TOPSECRET".to_string()]).expect("build redactor");
    assert_eq!(redactor.trailing_secret_prefix_len("abcTOPSEC"), 6);
}

#[test]
fn trailing_secret_prefix_len_returns_zero_without_candidate() {
    let redactor = Redactor::from_secrets(vec!["TOPSECRET".to_string()]).expect("build redactor");
    assert_eq!(redactor.trailing_secret_prefix_len("abcXYZ"), 0);
    assert_eq!(redactor.trailing_secret_prefix_len("TOPSECRET"), 0);
}

#[test]
fn trailing_secret_prefix_len_supports_multibyte_boundaries() {
    let redactor =
        Redactor::from_secrets(vec!["secrét-value".to_string()]).expect("build redactor");
    assert_eq!(
        redactor.trailing_secret_prefix_len("prefix secré"),
        "secré".len()
    );
}

#[test]
fn secrets_are_replaced_in_text() {
    let r = redactor(&["TOPSECRET", "pin"]);
    assert_eq!(r.redact_text("a TOPSECRET b pin"), "a <redacted> b <redacted>");
    assert_eq!(r.redact_text("nothing"), "nothing");
    assert_eq!(r.redact_text(""), "");
    assert_eq!(redactor(&[]).redact_text("TOPSECRET"), "TOPSECRET");
}

#[test]
fn earliest_end_wins_between_overlapping_secrets() {
    let r = redactor(&["abcd", "bc"]);
    assert_eq!(r.redact_text("abcd"), "a<redacted>d");
    let r = redactor(&["bc", "abc"]);
    assert_eq!(r.redact_text("abc"), "<redacted>");
    let r = redactor(&["aa"]);
    assert_eq!(r.redact_text("aaaaa"), "<redacted><redacted>a");
}

#[test]
fn empty_secret_is_found_everywhere() {
    let r = redactor(&[""]);
    assert_eq!(r.redact_text("ab"), "<redacted>a<redacted>b<redacted>");
    assert_eq!(r.redact_text("é"), "<redacted>é<redacted>");
}

#[test]
fn bytes_are_redacted_only_as_text() {
    let r = redactor(&["pin"]);
    assert_eq!(r.redact_utf8(b"my pin").expect("text"), "my <redacted>");
    assert!(matches!(
        r.redact_utf8(&[0xff, 0xfe]),
        Err(RedactError::NonUtf8)
    ));
}

#[test]
fn stable_part_ends_before_a_possible_secret() {
    let r = redactor(&["TOPSECRET"]);
    assert_eq!(r.stable_prefix_len("abcTOPSEC"), 3);
    assert_eq!(r.stable_char_count("abcTOPSEC"), 3);
    assert_eq!(r.stable_prefix_len("abcTOPSECRET"), 12);
    assert_eq!(r.stable_prefix_len("é TOP"), 3);
    assert_eq!(r.stable_char_count("é TOP"), 2);
}

#[test]
fn secrets_file_lists_one_secret_per_line() {
    assert_eq!(
        load_secrets("one\n\n  two \r\n\t\nthree"),
        vec!["one".to_string(), "two".to_string(), "three".to_string()]
    );
    assert!(load_secrets("").is_empty());
}

#[test]
fn chunking_does_not_change_the_redaction() {
    let r = redactor(&["TOPSECRET", "secrét"]);
    let whole = "x TOPSECRET y secrét z TOPSEC".as_bytes();
    let expected = "x <redacted> y <redacted> z TOPSEC";
    assert_eq!(pumped(&r, &[whole]).expect("text"), expected);
    for size in 1..whole.len() {
        let chunks: Vec<&[u8]> = whole.chunks(size).collect();
        assert_eq!(pumped(&r, &chunks).expect("text"), expected, "chunks of {size}");
    }
}

#[test]
fn secret_across_two_chunks_is_not_passed_on() {
    let r = redactor(&["TOPSECRET"]);
    let mut pump = OutputPump::new();
    assert_eq!(pump.feed(b"a TOPS", &r).expect("text"), vec!["a ".to_string()]);
    assert_eq!(
        pump.feed(b"ECRET b", &r).expect("text"),
        vec!["<redacted> b".to_string()]
    );
    assert!(pump.finish(&r).expect("text").is_empty());
}

#[test]
fn output_that_is_not_text_is_refused() {
    let r = redactor(&[]);
    let refused = "non-UTF-8 stream data is unsupported; fail closed";
    assert_eq!(pumped(&r, &[b"ok", &[0xff]]), Err(refused.to_string()));
    assert_eq!(pumped(&r, &[b"ok", &[0xc3]]), Err(refused.to_string()));
    assert_eq!(pumped(&r, &[&[0xc3], &[0xa9]]), Ok("é".to_string()));
    assert_eq!(pumped(&r, &[&[0xc3], &[0x28]]), Err(refused.to_string()));
    assert_eq!(pumped(&r, &[]), Ok(String::new()));
}

#[test]
fn refused_chunk_is_kept_unread() {
    let r = redactor(&["TOPSECRET"]);
    let mut pump = OutputPump::new();
    assert!(pump.feed(b"TOP\xc3", &r).expect("text").is_empty());
    assert!(pump.feed(b"(x", &r).is_err());
    assert_eq!(pump.utf8_pending, b"\xc3(x");
    assert_eq!(pump.redaction_pending, "TOP");
}

#[test]
fn long_output_goes_out_in_packets() {
    let r = redactor(&[]);
    let mut pump = OutputPump::new();
    let text = "é".repeat(5000);
    let packets = pump.feed(text.as_bytes(), &r).expect("text");
    assert_eq!(packets.len(), 2);
    assert_eq!(packets[0].len(), 8192);
    assert_eq!(packets[1].len(), 1808);
}

#[test]
fn failed_reads_name_the_stream() {
    assert_eq!(read_failure("stdout", "gone"), "stdout read failed: gone");
}

#[test]
fn drain_keeps_the_beginning_of_a_character() {
    let mut pending = vec![b'a', 0xe2, 0x82];
    let mut text = "x".to_string();
    drain_utf8_into_text(&mut pending, &mut text).expect("readable");
    assert_eq!(pending, vec![0xe2, 0x82]);
    assert_eq!(text, "xa");
    pending.push(0xac);
    drain_utf8_into_text(&mut pending, &mut text).expect("readable");
    assert!(pending.is_empty());
    assert_eq!(text, "xa€");
    pending.push(0x80);
    assert!(drain_utf8_into_text(&mut pending, &mut text).is_err());
    assert_eq!(pending, vec![0x80]);
    assert_eq!(text, "xa€");
}
