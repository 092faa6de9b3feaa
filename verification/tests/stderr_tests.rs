use vlc2chromecast::stderr_log::{
    append_stderr_line, last_stderr_error, trim_stderr_tail, STDERR_MAX_BYTES,
};

#[test]
fn error_keyword_line_is_preferred_most_recent_first() {
    let content = "starting\nmain error: cannot open file\nsome info\nFailed to connect\ntrailing";
    assert_eq!(last_stderr_error(content), Some("VLC error: Failed to connect".to_string()));
}

#[test]
fn keyword_match_ignores_case() {
    assert_eq!(last_stderr_error("a\nFATAL thing\nb"), Some("VLC error: FATAL thing".to_string()));
    assert_eq!(last_stderr_error("x CaNnOt y"), Some("VLC error: x CaNnOt y".to_string()));
}

#[test]
fn falls_back_to_last_nonblank_line() {
    assert_eq!(last_stderr_error("first\nsecond\n   \n\t\n"), Some("VLC error: second".to_string()));
    assert_eq!(last_stderr_error("only\u{a0}\n\u{3000}"), Some("VLC error: only\u{a0}".to_string()));
}

#[test]
fn blank_or_empty_output_gives_none() {
    assert_eq!(last_stderr_error(""), None);
    assert_eq!(last_stderr_error("  \n\r\n\u{2003}\n"), None);
}

#[test]
fn carriage_returns_are_dropped_before_newlines() {
    assert_eq!(last_stderr_error("error: x\r\nok"), Some("VLC error: error: x".to_string()));
    assert_eq!(last_stderr_error("plain\r"), Some("VLC error: plain\r".to_string()));
}

#[test]
fn appending_separates_lines() {
    let mut buf = String::new();
    append_stderr_line(&mut buf, "one");
    assert_eq!(buf, "one");
    append_stderr_line(&mut buf, "two");
    assert_eq!(buf, "one\ntwo");
}

#[test]
fn trimming_keeps_whole_trailing_lines() {
    let mut buf = String::from("aaaa\nbbbb\ncccc");
    trim_stderr_tail(&mut buf, 8);
    assert_eq!(buf, "cccc");

    let mut short = String::from("abc\ndef");
    trim_stderr_tail(&mut short, 100);
    assert_eq!(short, "abc\ndef");

    let mut no_newline = String::from("x\nabcdefghij");
    trim_stderr_tail(&mut no_newline, 5);
    assert_eq!(no_newline, "x\nabcdefghij");
}

#[test]
fn trimming_matches_byte_cap() {
    let mut buf = String::new();
    for i in 0..2000 {
        append_stderr_line(&mut buf, &format!("line {i}"));
        trim_stderr_tail(&mut buf, STDERR_MAX_BYTES);
        assert!(buf.len() <= STDERR_MAX_BYTES);
    }
    assert!(buf.ends_with("line 1999"));
}

#[test]
fn cut_inside_a_character_moves_to_next_boundary() {
    // bytes: 'a' (1), 'é' (2), '\n' (1), 'b', 'c': the point 4 bytes before
    // the end falls inside 'é'; the cut starts at the next boundary.
    let mut buf = String::from("a\u{e9}\nbc");
    trim_stderr_tail(&mut buf, 4);
    assert_eq!(buf, "bc");

    let mut wide = String::new();
    for i in 0..500 {
        append_stderr_line(&mut wide, &format!("\u{65e5}\u{672c}\u{e9} {i}"));
        trim_stderr_tail(&mut wide, STDERR_MAX_BYTES);
        assert!(wide.len() <= STDERR_MAX_BYTES);
        assert!(wide.ends_with(&format!(" {i}")));
    }
}

fn reference_error(content: &str) -> Option<String> {
    let error_keywords = ["error:", "cannot", "failed", "fatal"];
    if let Some(line) = content.lines().rev().find(|l| {
        let lower = l.to_lowercase();
        error_keywords.iter().any(|kw| lower.contains(kw))
    }) {
        return Some(format!("VLC error: {line}"));
    }
    content
        .lines()
        .rev()
        .find(|l| !l.trim().is_empty())
        .map(|line| format!("VLC error: {line}"))
}

#[test]
fn agrees_with_std_lines_and_lowercase() {
    let pieces = [
        "", "\n", "\r\n", "\r", " ", "\t", "x", "ERROR:", "Error: bad", "CANNOT", "cannot",
        "FAİLED", "fai\u{130}led", "Failed", "fatal", "FaTaL", "\u{212a}", "\u{a0}", "\u{2003}",
        "é", "日本", "error", "err or:", "\u{85}", "\u{3000}", "a\rb",
    ];
    let mut count = 0;
    for a in pieces.iter() {
        for b in pieces.iter() {
            for c in pieces.iter() {
                let content = format!("{a}{b}{c}");
                assert_eq!(last_stderr_error(&content), reference_error(&content), "{content:?}");
                let joined = format!("{a}\n{b}\r\n{c}");
                assert_eq!(last_stderr_error(&joined), reference_error(&joined), "{joined:?}");
                count += 1;
            }
        }
    }
    assert!(count > 0);
}

fn reference_push(buf: &mut String, line: &str) {
    if !buf.is_empty() {
        buf.push('\n');
    }
    buf.push_str(line);
    if buf.len() > STDERR_MAX_BYTES {
        let start = buf.len() - STDERR_MAX_BYTES;
        if let Some(newline) = buf[start..].find('\n') {
            let cut = start + newline + 1;
            buf.drain(..cut);
        }
    }
}

#[test]
fn buffer_agrees_with_direct_trimming() {
    let mut ours = String::new();
    let mut theirs = String::new();
    for i in 0..3000usize {
        let line = match i % 4 {
            0 => format!("plain line {i}"),
            1 => "x".repeat(i % 700),
            2 => String::new(),
            _ => format!("{} {}", "ab".repeat(i % 50), i),
        };
        append_stderr_line(&mut ours, &line);
        trim_stderr_tail(&mut ours, STDERR_MAX_BYTES);
        reference_push(&mut theirs, &line);
        assert_eq!(ours, theirs);
    }
}
