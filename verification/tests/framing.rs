use ical_merger::document::Calendar;
use ical_merger::framing::is_parsable;

/// Every byte string of the given length over the alphabet, in order.
fn each_string(alphabet: &[u8], length: usize, visit: &mut dyn FnMut(&[u8])) {
    let mut digits = vec![0usize; length];
    let mut bytes = vec![alphabet[0]; length];
    loop {
        visit(&bytes);
        let mut place = 0;
        loop {
            if place == length {
                return;
            }
            digits[place] += 1;
            if digits[place] < alphabet.len() {
                bytes[place] = alphabet[digits[place]];
                break;
            }
            digits[place] = 0;
            bytes[place] = alphabet[0];
            place += 1;
        }
    }
}

/// Parses every string that the scanner lets through; returns how many it
/// let through and how many it refused.
fn parse_all(alphabet: &[u8], length: usize) -> (usize, usize) {
    let mut accepted = 0;
    let mut refused = 0;
    each_string(alphabet, length, &mut |bytes| {
        if is_parsable(bytes) {
            let _ = Calendar::parse(bytes);
            accepted += 1;
        } else {
            refused += 1;
        }
    });
    (accepted, refused)
}

#[test]
fn parser_returns_on_short_strings_of_the_delimiters() {
    let alphabet = [b'A', b';', b':', b'=', b',', b'"', b'\r', b'\n', b' '];
    for length in 0..6 {
        let (accepted, _) = parse_all(&alphabet, length);
        assert!(accepted > 0);
    }
}

#[test]
fn parser_returns_on_strings_of_six_delimiters() {
    let alphabet = [b'A', b';', b':', b'=', b',', b'"', b'\r', b'\n', b' '];
    let (accepted, refused) = parse_all(&alphabet, 6);
    assert!(accepted > 0);
    assert!(refused > 0);
}

#[test]
fn parser_returns_on_lines_of_parameters() {
    // One line, properly ended, and what follows it.
    let alphabet = [b'A', b';', b':', b'=', b',', b'"', b'\t', b'-', b'_', b'\n', 0x7f];
    for length in 0..6 {
        each_string(&alphabet, length, &mut |middle| {
            for tail in [&b"\r\n"[..], b"\r\nEND:X\r\n", b"\r\n \r\nB:C\r\n", b"\r\n A\r\n", b"\r\n\r\n"] {
                let mut bytes = b"BEGIN:X\r\n".to_vec();
                bytes.extend_from_slice(middle);
                bytes.extend_from_slice(tail);
                if is_parsable(&bytes) {
                    let _ = Calendar::parse(&bytes);
                }
            }
        });
    }
}

#[test]
fn parser_returns_on_parameter_values() {
    let alphabet = [b'x', b';', b':', b'=', b',', b'"', b'\t', b'\n', 0x7f, b' '];
    for length in 0..6 {
        each_string(&alphabet, length, &mut |middle| {
            for head in [&b"A;B="[..], b"A;B=\"", b"A;B=x,", b"A;B=\"x\"", b"A;"] {
                let mut bytes = b"BEGIN:X\r\n".to_vec();
                bytes.extend_from_slice(head);
                bytes.extend_from_slice(middle);
                bytes.extend_from_slice(b"\r\nEND:X\r\n");
                if is_parsable(&bytes) {
                    let _ = Calendar::parse(&bytes);
                }
            }
        });
    }
}

#[test]
fn parser_returns_on_broken_line_ends() {
    let alphabet = [b'A', b':', b'=', b'\r', b'\n', b' ', b'\t', 0xc3, 0xa9];
    for length in 0..7 {
        let (accepted, _) = parse_all(&alphabet, length);
        assert!(accepted > 0);
    }
}

#[test]
fn parser_returns_on_generated_documents() {
    let pieces: [&[u8]; 16] = [
        b"BEGIN:VCALENDAR", b"END:VCALENDAR", b"BEGIN:VEVENT", b"END:VEVENT", b"\r\n", b"\r\n ",
        b"SUMMARY", b";", b":", b"=", b",", b"\"", b"TZID", b"\r", b"\n", b"x\xc3\xa9y",
    ];
    let mut state: u64 = 0x2545_f491_4f6c_dd1d;
    let mut accepted = 0;
    for _ in 0..60_000 {
        let mut bytes = Vec::new();
        state = state.wrapping_mul(6364136223846793005).wrapping_add(1442695040888963407);
        let count = (state >> 33) % 12;
        for _ in 0..count {
            state = state.wrapping_mul(6364136223846793005).wrapping_add(1442695040888963407);
            bytes.extend_from_slice(pieces[((state >> 33) % 16) as usize]);
        }
        if is_parsable(&bytes) {
            let _ = Calendar::parse(&bytes);
            accepted += 1;
        }
    }
    assert!(accepted > 1000);
}

#[test]
fn scanner_refuses_what_makes_the_parser_panic() {
    // No line is open and the input begins with a blank.
    assert!(!is_parsable(b" BEGIN:VCALENDAR\r\n"));
    assert!(!is_parsable(b"\tBEGIN:VCALENDAR\r\n"));
    // A carriage return without a line feed.
    assert!(!is_parsable(b"BEGIN:VCALENDAR\rEND:VCALENDAR\r\n"));
    assert!(!is_parsable(b"A:B\r\r\n"));
    // A blank after an empty line.
    assert!(!is_parsable(b"A:B\r\n\r\n C:D\r\n"));
    // A line, with another after it, that ends where a parameter value
    // should begin.
    assert!(!is_parsable(b"A;B=\r\nC:D\r\n"));
    assert!(!is_parsable(b"A;B=x,\r\nC:D\r\n"));
    // A line that ends right after a quoted parameter value.
    assert!(!is_parsable(b"A;B=\"x\"\r\nC:D\r\n"));
}

/// Whether the scanner lets the bytes through; the parser is then called.
fn accepts(bytes: &[u8]) -> bool {
    if is_parsable(bytes) {
        let _ = Calendar::parse(bytes);
        true
    } else {
        false
    }
}

#[test]
fn scanner_lets_calendars_through() {
    assert!(accepts(b""));
    assert!(accepts(b"BEGIN:VCALENDAR\r\nEND:VCALENDAR\r\n"));
    assert!(accepts(
        b"BEGIN:VCALENDAR\r\nVERSION:2.0\r\nBEGIN:VEVENT\r\nDTSTART;TZID=Europe/Berlin:20220101T100000\r\nATTENDEE;CN=\"Doe, Jane\";ROLE=CHAIR:mailto:jane@example.org\r\nDESCRIPTION:a long\r\n  text, folded\r\nATTACH;ENCODING=BASE64:AAAA==\r\nSUMMARY:ends in a \"quote\"\r\nEND:VEVENT\r\nEND:VCALENDAR\r\n"
    ));
    // Without a line end, with a lone line feed, with an empty line.
    assert!(accepts(b"BEGIN:VCALENDAR"));
    assert!(accepts(b"BEGIN:VCALENDAR\nEND:VCALENDAR\n"));
    assert!(accepts(b"BEGIN:VCALENDAR\r\n\r\nEND:VCALENDAR\r\n"));
    // A parameter value may go on in the next line.
    assert!(accepts(b"A;B=\r\n x:y\r\n"));
    // The parser never reads the last line, nor one before an empty line.
    assert!(accepts(b"BEGIN:X\r\nA;B=\r\n"));
    assert!(accepts(b"BEGIN:X\r\nA;B=\"x\""));
    assert!(accepts(b"BEGIN:X\r\nA;B=\r\n\r\nC:D\r\n"));
    // The reader gives an error for a name or a parameter value with a
    // byte that has no place in it, before it looks any further.
    assert!(accepts(b"A B;C=\r\nD:E\r\n"));
    assert!(accepts(b"A;B C=\r\nD:E\r\n"));
    assert!(accepts(b"A;B=\"\x01\"\r\nD:E\r\n"));
    assert!(accepts(b"A;B=x\x7f,\r\nD:E\r\n"));
    assert!(accepts(b"A;B=x\"y,\r\nD:E\r\n"));
    assert!(!is_parsable(b"A;B=\"\t\"\r\nD:E\r\n"));
    assert!(!is_parsable(b"A-1;B-2=x\ty,\r\nD:E\r\n"));
}
