use escpos_emulator::{EscPosCommand, EscPosParser, Font, Justification};

const ESC: u8 = 0x1B;

fn decode_all(bytes: &[u8]) -> Vec<EscPosCommand> {
    let mut parser = EscPosParser::new();
    parser.parse_stream(bytes)
}

#[test]
fn decodes_mixed_stream() {
    let mut bytes = vec![ESC, b'@'];
    bytes.extend_from_slice(b"Hello\n");
    bytes.extend_from_slice(&[ESC, b'E']);
    bytes.extend_from_slice(b"Bold");
    bytes.extend_from_slice(&[ESC, b'm']);
    assert_eq!(
        decode_all(&bytes),
        vec![
            EscPosCommand::InitializePrinter,
            EscPosCommand::Text("Hello".to_string()),
            EscPosCommand::NewLine,
            EscPosCommand::SetEmphasis(true),
            EscPosCommand::Text("Bold".to_string()),
            EscPosCommand::CutPaper,
        ]
    );
}

#[test]
fn chunks_split_between_commands_decode_like_the_whole() {
    let mut bytes = vec![ESC, b'@'];
    bytes.extend_from_slice(b"Hello\n");
    bytes.extend_from_slice(&[ESC, b'E']);
    bytes.extend_from_slice(b"Bold\r");
    bytes.extend_from_slice(&[ESC, b'm']);
    let whole = decode_all(&bytes);
    for cut in [0usize, 2, 7, 8, 9, 10, 14, 15, 16, bytes.len()] {
        let mut parser = EscPosParser::new();
        let mut got = parser.parse_stream(&bytes[..cut]);
        got.extend(parser.parse_stream(&bytes[cut..]));
        assert_eq!(got, whole, "cut at {}", cut);
    }
}

#[test]
fn escape_split_from_its_command_byte_is_resumed() {
    let mut parser = EscPosParser::new();
    let first = parser.parse_stream(&[b'A', b'\n', ESC]);
    assert_eq!(first, vec![EscPosCommand::Text("A".to_string()), EscPosCommand::NewLine]);
    let second = parser.parse_stream(&[b'E']);
    assert_eq!(second, vec![EscPosCommand::SetEmphasis(true)]);
}

#[test]
fn text_run_cut_by_a_chunk_boundary_yields_two_tokens() {
    let mut parser = EscPosParser::new();
    let mut got = parser.parse_stream(b"Hel");
    got.extend(parser.parse_stream(b"lo"));
    assert_eq!(
        got,
        vec![EscPosCommand::Text("Hel".to_string()), EscPosCommand::Text("lo".to_string())]
    );
}

#[test]
fn no_new_bytes_yields_nothing() {
    let mut parser = EscPosParser::new();
    let first = parser.parse_stream(b"abc\n");
    assert_eq!(first.len(), 2);
    assert!(parser.parse_stream(&[]).is_empty());
    assert!(parser.parse_stream(&[]).is_empty());
}

#[test]
fn lone_trailing_escape_stays_buffered() {
    let mut parser = EscPosParser::new();
    assert!(parser.parse_stream(&[ESC]).is_empty());
    assert!(parser.parse_stream(&[]).is_empty());
    assert_eq!(parser.parse_stream(&[b'4']), vec![EscPosCommand::SetItalic(true)]);
}

#[test]
fn parameter_byte_is_read_and_then_scanned_again() {
    assert_eq!(
        decode_all(&[ESC, b'M', 1]),
        vec![EscPosCommand::SetFont(Font::FontB), EscPosCommand::Text("\u{1}".to_string())]
    );
    assert_eq!(
        decode_all(&[ESC, b'a', 2]),
        vec![
            EscPosCommand::SetJustification(Justification::Right),
            EscPosCommand::Text("\u{2}".to_string()),
        ]
    );
}

#[test]
fn missing_parameters_take_defaults() {
    assert_eq!(decode_all(&[ESC, b'M']), vec![EscPosCommand::SetFont(Font::FontA)]);
    assert_eq!(
        decode_all(&[ESC, b'a']),
        vec![EscPosCommand::SetJustification(Justification::Left)]
    );
    assert_eq!(decode_all(&[ESC, b'-']), vec![EscPosCommand::SetUnderline(false)]);
    assert_eq!(decode_all(&[ESC, b'3']), vec![EscPosCommand::SetLineHeight(24)]);
    assert_eq!(decode_all(&[ESC, b'!']), vec![EscPosCommand::SetFontSize(12)]);
    assert_eq!(decode_all(&[ESC, b'J']), vec![EscPosCommand::LineFeed]);
}

#[test]
fn parameter_values_are_taken_raw() {
    assert_eq!(decode_all(&[ESC, b'3', b'\n'])[0], EscPosCommand::SetLineHeight(10));
    assert_eq!(decode_all(&[ESC, b'!', ESC])[0], EscPosCommand::SetFontSize(27));
    assert_eq!(decode_all(&[ESC, b'-', b'\r'])[0], EscPosCommand::SetUnderline(true));
    assert_eq!(decode_all(&[ESC, b'M', b'\n'])[0], EscPosCommand::SetFont(Font::FontA));
}

#[test]
fn simple_escape_commands() {
    assert_eq!(decode_all(&[ESC, b'F']), vec![EscPosCommand::SetEmphasis(false)]);
    assert_eq!(decode_all(&[ESC, b'5']), vec![EscPosCommand::SetItalic(false)]);
    assert_eq!(decode_all(&[ESC, b'i']), vec![EscPosCommand::CutPaper]);
    assert_eq!(decode_all(b"\r"), vec![EscPosCommand::CarriageReturn]);
}

#[test]
fn raster_image_with_full_payload() {
    let bytes = [ESC, b'*', 0, 8, 0, 2, 0xAA, 0x55];
    let cmds = decode_all(&bytes);
    assert_eq!(cmds[0], EscPosCommand::PrintImage(vec![0xAA, 0x55]));
}

#[test]
fn raster_image_with_short_payload_is_empty() {
    let bytes = [ESC, b'*', 0, 8, 0, 3, 0xAA, 0x55];
    assert_eq!(decode_all(&bytes)[0], EscPosCommand::PrintImage(vec![]));
    assert_eq!(decode_all(&[ESC, b'*', 0])[0], EscPosCommand::PrintImage(vec![]));
}

#[test]
fn raster_image_with_large_dimensions_does_not_fail() {
    let bytes = [ESC, b'*', 0xFF, 0xFF, 0xFF, 0xFF, 1, 2];
    assert_eq!(decode_all(&bytes)[0], EscPosCommand::PrintImage(vec![]));
}

#[test]
fn unknown_escape_keeps_the_remaining_bytes() {
    let bytes = [ESC, b'z', b'q'];
    assert_eq!(
        decode_all(&bytes),
        vec![
            EscPosCommand::Unknown(vec![ESC, b'z', b'q']),
            EscPosCommand::Text("q".to_string()),
        ]
    );
}

#[test]
fn invalid_utf8_is_replaced() {
    assert_eq!(
        decode_all(&[b'a', 0xFF, b'b']),
        vec![EscPosCommand::Text("a\u{FFFD}b".to_string())]
    );
    assert_eq!(
        decode_all("é".as_bytes()),
        vec![EscPosCommand::Text("é".to_string())]
    );
}

#[test]
fn default_and_clone_start_empty() {
    let mut parser = EscPosParser::default();
    assert!(parser.parse_stream(&[]).is_empty());
    parser.parse_stream(&[ESC]);
    let mut copy = parser.clone();
    assert_eq!(copy.parse_stream(&[b'@']), vec![EscPosCommand::InitializePrinter]);
}
