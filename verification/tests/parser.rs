use croc_sidecar::{
    CrocEvent, CrocParser, FileInfo, IpAddress, LineOutcome, Measure, Progress, Relay,
    RelayRequest,
};

const MB: u64 = 1024 * 1024;

fn measure(number: &str, scale: u64) -> Measure {
    Measure { number: number.to_string(), scale }
}

/// Everything the parser reports for `output`, ending with what the end of
/// the output gives.
fn outcomes(output: &[u8]) -> Vec<LineOutcome> {
    let mut parser = CrocParser::new();
    let mut seen = Vec::new();
    for &b in output {
        let out = parser.feed(b);
        if out != LineOutcome::Skip {
            seen.push(out);
        }
    }
    seen.push(parser.finish());
    seen
}

fn events(output: &[u8]) -> Vec<CrocEvent> {
    outcomes(output)
        .into_iter()
        .map(|o| match o {
            LineOutcome::Event(e) => e,
            other => panic!("not an event: {:?}", other),
        })
        .collect()
}

fn chars(s: &str) -> Vec<char> {
    s.chars().collect()
}

#[test]
fn code_line() {
    assert_eq!(
        events(b"Code is: 1234-alpha-beta-gamma\n"),
        vec![CrocEvent::CodeGenerated("1234-alpha-beta-gamma".to_string()), CrocEvent::EOF]
    );
}

#[test]
fn hashing_line() {
    let e = events("Hashing file.txt 45% |████      | (1.2/2.4 MB, 10 MB/s)\n".as_bytes());
    assert_eq!(
        e,
        vec![
            CrocEvent::Hashing(Progress {
                file_name: "file.txt".to_string(),
                percentage: 45,
                bytes_sent: Some(measure("1.2", MB)),
                bytes_total: Some(measure("2.4", MB)),
                speed: Some(measure("10", MB)),
            }),
            CrocEvent::EOF
        ]
    );
}

#[test]
fn hashing_without_bar_falls_through_to_progress() {
    // No "% |" after the name: not hashing progress, nor any other kind.
    assert_eq!(
        events(b"Hashing file.txt 45%\n"),
        vec![CrocEvent::Unknown("Hashing file.txt 45%".to_string()), CrocEvent::EOF]
    );
}

#[test]
fn sending_info_then_progress_is_sending() {
    let out = "Sending 'photo.jpg' (3.2 MB)\nphoto.jpg 12% |██        | (400 kB/3.2 MB, 1.1 MB/s)\r";
    assert_eq!(
        events(out.as_bytes()),
        vec![
            CrocEvent::SendingInfo(FileInfo {
                name: "photo.jpg".to_string(),
                size: measure("3.2", MB),
            }),
            CrocEvent::Sending(Progress {
                file_name: "photo.jpg".to_string(),
                percentage: 12,
                bytes_sent: Some(measure("400", 1024)),
                bytes_total: Some(measure("3.2", MB)),
                speed: Some(measure("1.1", MB)),
            }),
            CrocEvent::EOF
        ]
    );
}

#[test]
fn receiving_info_then_progress_is_receiving() {
    let out = "Receiving 'a b.txt' (12 B)\na b.txt 100% |██████████| (12/12 B, 6 B/s)\n";
    assert_eq!(
        events(out.as_bytes()),
        vec![
            CrocEvent::ReceivingInfo(FileInfo { name: "a b.txt".to_string(), size: measure("12", 1) }),
            CrocEvent::Receiving(Progress {
                file_name: "a b.txt".to_string(),
                percentage: 100,
                bytes_sent: Some(measure("12", 1)),
                bytes_total: Some(measure("12", 1)),
                speed: Some(measure("6", 1)),
            }),
            CrocEvent::EOF
        ]
    );
}

#[test]
fn progress_defaults_to_sending() {
    assert_eq!(
        events(b"x 5% |    | (5 kB)\n"),
        vec![
            CrocEvent::Sending(Progress {
                file_name: "x".to_string(),
                percentage: 5,
                bytes_sent: Some(measure("5", 1024)),
                bytes_total: None,
                speed: None,
            }),
            CrocEvent::EOF
        ]
    );
}

#[test]
fn progress_without_details() {
    assert_eq!(
        events(b"x +7% |"),
        vec![CrocEvent::Sending(Progress {
            file_name: "x".to_string(),
            percentage: 7,
            bytes_sent: None,
            bytes_total: None,
            speed: None,
        })]
    );
}

#[test]
fn percentage_out_of_range_is_unknown() {
    assert_eq!(
        events(b"file 256% |##| (1/2 B)\n"),
        vec![CrocEvent::Unknown("file 256% |##| (1/2 B)".to_string()), CrocEvent::EOF]
    );
    assert_eq!(
        events(b"file -1% |##|\n"),
        vec![CrocEvent::Unknown("file -1% |##|".to_string()), CrocEvent::EOF]
    );    assert_eq!(
        events(b"f 150% | (1/2 B)\n"),
        vec![CrocEvent::Unknown("f 150% | (1/2 B)".to_string()), CrocEvent::EOF]
    );
    assert_eq!(
        events(b"Hashing f 101% |\n"),
        vec![CrocEvent::Unknown("Hashing f 101% |".to_string()), CrocEvent::EOF]
    );
}

#[test]
fn relay_lines_need_their_address_read() {
    let out = outcomes(b"Sending (->1.2.3.4:9009)\nReceiving (<-[::1]:9010)\n");
    assert_eq!(
        out,
        vec![
            LineOutcome::Relay(RelayRequest {
                line: "Sending (->1.2.3.4:9009)".to_string(),
                address: "1.2.3.4:9009".to_string(),
                receiving: false,
            }),
            LineOutcome::Relay(RelayRequest {
                line: "Receiving (<-[::1]:9010)".to_string(),
                address: "[::1]:9010".to_string(),
                receiving: true,
            }),
            LineOutcome::Event(CrocEvent::EOF),
        ]
    );
}

#[test]
fn relay_without_arrow_is_unknown() {
    assert_eq!(
        events(b"Sending (something)\n"),
        vec![CrocEvent::Unknown("Sending (something)".to_string()), CrocEvent::EOF]
    );
}

#[test]
fn relay_with_parenthesis_before_arrow_is_unknown() {
    assert_eq!(
        events(b"Sending (x) ->y\n"),
        vec![CrocEvent::Unknown("Sending (x) ->y".to_string()), CrocEvent::EOF]
    );
    assert_eq!(
        events(b"Sending ()->\n"),
        vec![CrocEvent::Unknown("Sending ()->".to_string()), CrocEvent::EOF]
    );
}

#[test]
fn relay_line_sets_direction() {
    let mut parser = CrocParser::new();
    let out = parser.parse_line(&chars("Receiving (<-1.2.3.4:9009)"));
    assert!(matches!(out, LineOutcome::Relay(_)));
    let out = parser.parse_line(&chars("f 50% |#| (1/2 B)"));
    assert!(matches!(out, LineOutcome::Event(CrocEvent::Receiving(_))));
    let out = parser.parse_line(&chars("Sending (->1.2.3.4:9009)"));
    assert!(matches!(out, LineOutcome::Relay(_)));
    let out = parser.parse_line(&chars("f 50% |#| (1/2 B)"));
    assert!(matches!(out, LineOutcome::Event(CrocEvent::Sending(_))));
}

#[test]
fn resolve_relay() {
    let req = RelayRequest {
        line: "Receiving (<-1.2.3.4:9009)".to_string(),
        address: "1.2.3.4:9009".to_string(),
        receiving: true,
    };
    let relay = Relay::new(IpAddress::V4("1.2.3.4".to_string()), 9009);
    assert_eq!(
        CrocParser::resolve_relay(req.clone(), Some(relay.clone())),
        CrocEvent::ReceivingFrom(relay.clone())
    );
    assert_eq!(
        CrocParser::resolve_relay(req.clone(), None),
        CrocEvent::Unknown("Receiving (<-1.2.3.4:9009)".to_string())
    );
    let send = RelayRequest { receiving: false, ..req };
    assert_eq!(CrocParser::resolve_relay(send, Some(relay.clone())), CrocEvent::SendingTo(relay));
}

#[test]
fn ignored_lines() {
    let out = b"On the other computer run:\n(For Windows)\n(For Linux/macOS)\ncroc 1234-code\nCROC_SECRET=1234-code croc\n";
    assert_eq!(events(out), vec![CrocEvent::EOF]);
    assert!(CrocParser::should_ignore(&chars("croc v10.0.0")));
    assert!(!CrocParser::should_ignore(&chars("croc")));
    assert!(!CrocParser::should_ignore(&chars("(For Windows) ")));
}

#[test]
fn blank_and_empty_lines_are_skipped() {
    assert_eq!(events(b"\n\r\n   \t\r\n\n"), vec![CrocEvent::EOF]);
    assert_eq!(events(b""), vec![CrocEvent::EOF]);
}

#[test]
fn unknown_line_is_trimmed() {
    assert_eq!(
        events(b"  something else  \n"),
        vec![CrocEvent::Unknown("something else".to_string()), CrocEvent::EOF]
    );
}

#[test]
fn pending_line_at_end() {
    assert_eq!(
        events(b"Code is: abc"),
        vec![CrocEvent::CodeGenerated("abc".to_string())]
    );
    // Ignored at the end: the end is reported.
    assert_eq!(events(b"croc v9"), vec![CrocEvent::EOF]);
}

#[test]
fn end_is_final() {
    let mut parser = CrocParser::new();
    for &b in b"Code is: abc" {
        assert_eq!(parser.feed(b), LineOutcome::Skip);
    }
    assert_eq!(parser.finish(), LineOutcome::Event(CrocEvent::CodeGenerated("abc".to_string())));
    assert_eq!(parser.finish(), LineOutcome::Event(CrocEvent::EOF));
    assert_eq!(parser.finish(), LineOutcome::Event(CrocEvent::EOF));
}

#[test]
fn line_endings_agree() {
    assert_eq!(events(b"Code is: a\r"), events(b"Code is: a\n"));
    assert_eq!(events(b"Code is: a\r\n"), events(b"Code is: a\n"));
}

#[test]
fn ansi_sequences_are_removed() {
    assert_eq!(
        events(b"\x1b[1mCode is: \x1b[0mabc\x1b[K\n"),
        vec![CrocEvent::CodeGenerated("abc".to_string()), CrocEvent::EOF]
    );
    assert_eq!(CrocParser::strip_ansi(&chars("a\u{1b}[31;1mb\u{1b}c")), chars("ab"));
    assert_eq!(CrocParser::strip_ansi(&chars("plain text")), chars("plain text"));
    let once = CrocParser::strip_ansi(&chars("\u{1b}[2Kx\u{1b}[1Ay"));
    assert_eq!(CrocParser::strip_ansi(&once), once);
}

#[test]
fn invalid_utf8_is_replaced() {
    assert_eq!(
        events(b"bad \xff byte\n"),
        vec![CrocEvent::Unknown("bad \u{fffd} byte".to_string()), CrocEvent::EOF]
    );
    assert_eq!(
        events("Code is: caf\u{e9}\n".as_bytes()),
        vec![CrocEvent::CodeGenerated("caf\u{e9}".to_string()), CrocEvent::EOF]
    );
}

#[test]
fn info_without_size_falls_through() {
    assert_eq!(
        events(b"Sending 'file.txt'\n"),
        vec![CrocEvent::Unknown("Sending 'file.txt'".to_string()), CrocEvent::EOF]
    );
    assert_eq!(
        events(b"Receiving 'file.txt' (abc)\n"),
        vec![
            CrocEvent::ReceivingInfo(FileInfo { name: "file.txt".to_string(), size: measure("", 1) }),
            CrocEvent::EOF
        ]
    );
}

#[test]
fn info_line_direction() {
    let mut parser = CrocParser::new();
    parser.parse_line(&chars("Receiving 'f' (1 B)"));
    assert!(matches!(parser.parse_line(&chars("f 1% |")), LineOutcome::Event(CrocEvent::Receiving(_))));
    parser.parse_line(&chars("Sending 'f' (1 B)"));
    assert!(matches!(parser.parse_line(&chars("f 1% |")), LineOutcome::Event(CrocEvent::Sending(_))));
}

#[test]
fn line_reported_at_its_end() {
    let mut parser = CrocParser::new();
    for &b in b"Sending 'f' (1 B)" {
        assert_eq!(parser.feed(b), LineOutcome::Skip);
    }
    assert_eq!(
        parser.feed(b'\n'),
        LineOutcome::Event(CrocEvent::SendingInfo(FileInfo { name: "f".to_string(), size: measure("1", 1) }))
    );
    assert_eq!(parser.feed(b'\n'), LineOutcome::Skip);
    assert_eq!(parser.finish(), LineOutcome::Event(CrocEvent::EOF));
}

#[test]
fn output_read_in_pieces() {
    let whole = outcomes(b"Code is: abc\nSending 'f' (1 B)\n");
    let mut parser = CrocParser::new();
    let mut seen = Vec::new();
    for piece in [&b"Code is"[..], &b": ab"[..], &b"c\nSend"[..], &b"ing 'f' (1 B)\n"[..]] {
        for &b in piece {
            let out = parser.feed(b);
            if out != LineOutcome::Skip {
                seen.push(out);
            }
        }
    }
    seen.push(parser.finish());
    assert_eq!(seen, whole);
}

#[test]
fn direction_kept_by_other_lines() {
    assert_eq!(
        events(b"Receiving 'f' (1 B)\nCode is: x\nsomething else\nf 3% |\n"),
        vec![
            CrocEvent::ReceivingInfo(FileInfo { name: "f".to_string(), size: measure("1", 1) }),
            CrocEvent::CodeGenerated("x".to_string()),
            CrocEvent::Unknown("something else".to_string()),
            CrocEvent::Receiving(Progress {
                file_name: "f".to_string(),
                percentage: 3,
                bytes_sent: None,
                bytes_total: None,
                speed: None,
            }),
            CrocEvent::EOF
        ]
    );
}

#[test]
fn steps_of_a_line() {
    let mut p = CrocParser::new();
    assert_eq!(p.parse_info(&chars("Sending 'f'")), None);
    assert_eq!(
        p.parse_progress(&chars("f 9% |")),
        Some(CrocEvent::Sending(Progress {
            file_name: "f".to_string(),
            percentage: 9,
            bytes_sent: None,
            bytes_total: None,
            speed: None,
        }))
    );
    assert_eq!(
        p.parse_info(&chars("Receiving 'f' (2 B)")),
        Some(CrocEvent::ReceivingInfo(FileInfo { name: "f".to_string(), size: measure("2", 1) }))
    );
    assert!(matches!(p.parse_progress(&chars("f 10% |")), Some(CrocEvent::Receiving(_))));
    assert_eq!(p.parse_state_change(&chars("other")), None);
    assert_eq!(
        p.parse_state_change(&chars("Sending (x)")),
        Some(LineOutcome::Event(CrocEvent::Unknown("Sending (x)".to_string())))
    );
    assert!(matches!(p.parse_progress(&chars("f 11% |")), Some(CrocEvent::Sending(_))));
}
