use escpos_emulator::{EmulatorState, EscPosCommand, EscPosParser, Font, PaperWidth};

#[test]
fn new_emulator_is_empty() {
    let e = EmulatorState::new();
    assert!(e.get_command_history().is_empty());
    assert_eq!(e.max_history_size, 1000);
    assert!(e.get_printer_state().get_buffer().is_empty());
}

#[test]
fn unsupported_paper_width_resolves_to_80mm() {
    let mut e = EmulatorState::new();
    e.set_paper_width(50);
    assert_eq!(e.get_printer_state().paper_width, PaperWidth::Width50mm);
    e.set_paper_width(65);
    assert_eq!(e.get_printer_state().paper_width, PaperWidth::Width80mm);
    e.set_paper_width(78);
    assert_eq!(e.get_printer_state().paper_width, PaperWidth::Width78mm);
}

#[test]
fn history_evicts_oldest_first() {
    let mut e = EmulatorState::new();
    for i in 1..=1001u32 {
        e.process_command(&EscPosCommand::SetLineHeight(i));
    }
    let h = e.get_command_history();
    assert_eq!(h.len(), 1000);
    assert_eq!(h.front().unwrap().command, EscPosCommand::SetLineHeight(2));
    assert_eq!(h.back().unwrap().command, EscPosCommand::SetLineHeight(1001));
    assert!(h.iter().all(|entry| entry.command != EscPosCommand::SetLineHeight(1)));
}

#[test]
fn history_bound_can_be_lowered() {
    let mut e = EmulatorState::new();
    e.max_history_size = 2;
    for c in [EscPosCommand::NewLine, EscPosCommand::CutPaper, EscPosCommand::LineFeed] {
        e.process_command(&c);
    }
    let got: Vec<_> = e.get_command_history().iter().map(|x| x.command.clone()).collect();
    assert_eq!(got, vec![EscPosCommand::CutPaper, EscPosCommand::LineFeed]);
}

#[test]
fn entries_hold_no_raw_bytes() {
    let mut e = EmulatorState::new();
    e.process_command(&EscPosCommand::Text("a".to_string()));
    assert!(e.get_command_history()[0].raw_data.is_empty());
}

#[test]
fn commands_reach_the_printer() {
    let mut e = EmulatorState::new();
    e.process_command(&EscPosCommand::Text("hi".to_string()));
    e.process_command(&EscPosCommand::SetFont(Font::FontB));
    assert_eq!(e.get_printer_state().get_buffer(), &["hi".to_string()]);
    assert_eq!(e.get_printer_state().current_font, Font::FontB);
    e.clear_printer_buffer();
    assert!(e.get_printer_state().get_buffer().is_empty());
    assert_eq!(e.get_command_history().len(), 2);
    e.clear_history();
    assert!(e.get_command_history().is_empty());
}

#[test]
fn status_summary_reports_state() {
    let mut e = EmulatorState::new();
    e.process_command(&EscPosCommand::SetEmphasis(true));
    e.process_command(&EscPosCommand::SetJustification(escpos_emulator::Justification::Right));
    e.process_command(&EscPosCommand::Text("x".to_string()));
    e.set_paper_width(78);
    let s = e.get_status_summary();
    assert_eq!(s.paper_width, "Width78mm");
    assert_eq!(s.current_font, "FontA");
    assert_eq!(s.justification, "Right");
    assert!(s.emphasis && !s.underline && !s.italic);
    assert_eq!(s.buffer_lines, 1);
    assert_eq!(s.command_count, 3);
    assert_eq!(s.dpi, 180);
}

#[test]
fn setters_change_the_printer() {
    let mut e = EmulatorState::new();
    e.set_line_height(40);
    e.set_font_size(18);
    assert_eq!(e.get_printer_state().line_height, 40);
    assert_eq!(e.get_printer_state().font_size, 18);
    assert!(e.get_command_history().is_empty());
}

#[test]
fn interleaved_connections_apply_every_command_once() {
    let connections: Vec<Vec<Vec<u8>>> = vec![
        vec![b"first\n".to_vec(), b"second\n".to_vec()],
        vec![vec![0x1B, b'E'], b"A\n".to_vec(), vec![0x1B, b'F']],
        vec![b"\r".to_vec(), b"\r\r".to_vec()],
    ];
    let mut parsers: Vec<EscPosParser> = connections.iter().map(|_| EscPosParser::new()).collect();
    let mut e = EmulatorState::new();
    let mut sent = 0usize;
    for round in 0..3 {
        for (k, chunks) in connections.iter().enumerate() {
            if round < chunks.len() {
                for c in parsers[k].parse_stream(&chunks[round]) {
                    e.process_command(&c);
                    sent += 1;
                }
            }
        }
    }
    assert_eq!(sent, 4 + 4 + 3);
    assert_eq!(e.get_command_history().len(), sent);
    let texts: Vec<_> = e
        .get_command_history()
        .iter()
        .filter_map(|x| match &x.command {
            EscPosCommand::Text(t) => Some(t.clone()),
            _ => None,
        })
        .collect();
    assert_eq!(texts, vec!["first".to_string(), "second".to_string(), "A".to_string()]);

    let mut bounded = EmulatorState::new();
    bounded.max_history_size = 5;
    for chunks in &connections {
        let mut parser = EscPosParser::new();
        for chunk in chunks {
            for c in parser.parse_stream(chunk) {
                bounded.process_command(&c);
            }
        }
    }
    assert_eq!(bounded.get_command_history().len(), 5);
}
