use vstd::prelude::*;
use std::collections::VecDeque;
use std::time::SystemTime;
use crate::commands::{CommandModel, EscPosCommand, Font, Justification};
use crate::printer::{apply_command, initial_printer, PaperWidth, PrinterState, PrinterView};

verus! {

/// `std::time::SystemTime`, carried as an opaque timestamp.
#[verifier::external_type_specification]
#[verifier::external_body]
pub struct ExSystemTime(SystemTime);

/// Relies on `SystemTime::now`: reads the system clock. Nothing is promised
/// of the value.
pub assume_specification[ SystemTime::now ]() -> SystemTime;

/// One applied command, as kept in the history.
#[derive(Debug)]
pub struct CommandEntry {
    pub timestamp: SystemTime,
    pub command: EscPosCommand,
    pub raw_data: Vec<u8>,
}

/// The default bound on the history length.
pub const DEFAULT_MAX_HISTORY: usize = 1000;

/// The printer, the history of applied commands (oldest first) and when the
/// emulator started.
#[derive(Debug)]
pub struct EmulatorState {
    pub printer_state: PrinterState,
    pub command_history: VecDeque<CommandEntry>,
    pub max_history_size: usize,
    pub start_time: SystemTime,
}

/// What a status display shows of the emulator.
#[derive(Debug)]
pub struct StatusSummary {
    pub paper_width: String,
    pub current_font: String,
    pub justification: String,
    pub emphasis: bool,
    pub underline: bool,
    pub italic: bool,
    pub buffer_lines: usize,
    pub command_count: usize,
    pub dpi: u32,
}

/// The last `cap` elements of `h`, or all of them if there are fewer.
pub open spec fn keep_last(h: Seq<CommandModel>, cap: nat) -> Seq<CommandModel> {
    if h.len() > cap {
        h.skip(h.len() - cap)
    } else {
        h
    }
}

/// The commands of a run of history entries, in order.
pub open spec fn history_commands(h: Seq<CommandEntry>) -> Seq<CommandModel> {
    h.map_values(|e: CommandEntry| e.command@)
}

/// No entry records raw bytes.
pub open spec fn without_raw_data(h: Seq<CommandEntry>) -> bool {
    forall|i: int| 0 <= i < h.len() ==> (#[trigger] h[i]).raw_data@.len() == 0
}

/// The paper roll selected by a width in millimetres; an unsupported width
/// selects 80mm.
pub open spec fn paper_width_of_mm(width_mm: u32) -> PaperWidth {
    if width_mm == 50 {
        PaperWidth::Width50mm
    } else if width_mm == 78 {
        PaperWidth::Width78mm
    } else {
        PaperWidth::Width80mm
    }
}

/// The name under which a paper roll is reported.
pub open spec fn paper_width_label(w: PaperWidth) -> Seq<char> {
    match w {
        PaperWidth::Width50mm => "Width50mm"@,
        PaperWidth::Width78mm => "Width78mm"@,
        PaperWidth::Width80mm => "Width80mm"@,
    }
}

/// The name under which a font is reported.
pub open spec fn font_label(f: Font) -> Seq<char> {
    match f {
        Font::FontA => "FontA"@,
        Font::FontB => "FontB"@,
        Font::FontC => "FontC"@,
    }
}

/// The name under which an alignment is reported.
pub open spec fn justification_label(j: Justification) -> Seq<char> {
    match j {
        Justification::Left => "Left"@,
        Justification::Center => "Center"@,
        Justification::Right => "Right"@,
    }
}

/// The history commands after applying `cmds` one at a time, each as
/// `process_command` records it, to a history `h` bounded by `cap`.
pub open spec fn history_after(h: Seq<CommandModel>, cmds: Seq<CommandModel>, cap: nat) -> Seq<
    CommandModel,
>
    decreases cmds.len(),
{
    if cmds.len() == 0 {
        h
    } else {
        keep_last(history_after(h, cmds.drop_last(), cap).push(cmds.last()), cap)
    }
}

proof fn lemma_keep_last_push(x: Seq<CommandModel>, c: CommandModel, cap: nat)
    ensures
        keep_last(keep_last(x, cap).push(c), cap) == keep_last(x.push(c), cap),
{
    assert(keep_last(keep_last(x, cap).push(c), cap) =~= keep_last(x.push(c), cap));
}

/// FIFO eviction: applying commands one at a time to a history within its
/// bound leaves the last `cap` commands of the old history followed by the
/// new ones; the oldest go first.
pub proof fn lemma_history_fifo(h: Seq<CommandModel>, cmds: Seq<CommandModel>, cap: nat)
    requires
        h.len() <= cap,
    ensures
        history_after(h, cmds, cap) == keep_last(h + cmds, cap),
        history_after(h, cmds, cap).len() == if h.len() + cmds.len() > cap {
            cap
        } else {
            h.len() + cmds.len()
        },
    decreases cmds.len(),
{
    if cmds.len() == 0 {
        assert(h + cmds =~= h);
    } else {
        lemma_history_fifo(h, cmds.drop_last(), cap);
        lemma_keep_last_push(h + cmds.drop_last(), cmds.last(), cap);
        assert((h + cmds.drop_last()).push(cmds.last()) =~= h + cmds);
    }
}

/// Commands from several connections, applied one at a time in any order
/// that interleaves them, grow the history by exactly the number of commands
/// sent, up to its bound, and every entry is one whole command that was sent
/// or was already there.
pub proof fn lemma_interleaved_connections(
    h: Seq<CommandModel>,
    streams: Seq<Seq<CommandModel>>,
    applied: Seq<CommandModel>,
    cap: nat,
)
    requires
        h.len() <= cap,
        applied.to_multiset() == streams.flatten().to_multiset(),
    ensures
        history_after(h, applied, cap).len() == if h.len() + streams.flatten().len() > cap {
            cap
        } else {
            h.len() + streams.flatten().len()
        },
        forall|i: int|
            0 <= i < history_after(h, applied, cap).len() ==> h.contains(
                #[trigger] history_after(h, applied, cap)[i],
            ) || streams.flatten().contains(history_after(h, applied, cap)[i]),
{
    broadcast use vstd::seq_lib::to_multiset_len, vstd::seq_lib::to_multiset_contains;

    let all = streams.flatten();
    lemma_history_fifo(h, applied, cap);
    assert(applied.len() == all.len()) by {
        assert(applied.to_multiset().len() == all.to_multiset().len());
    }
    let r = history_after(h, applied, cap);
    let joined = h + applied;
    assert forall|i: int| 0 <= i < r.len() implies h.contains(#[trigger] r[i]) || all.contains(
        r[i],
    ) by {
        let j = i + (joined.len() - r.len());
        assert(r[i] == joined[j]);
        if j < h.len() {
            assert(h[j] == r[i]);
        } else {
            assert(applied[j - h.len()] == r[i]);
            assert(applied.contains(r[i]));
            assert(applied.to_multiset().count(r[i]) > 0);
            assert(all.to_multiset().count(r[i]) > 0);
        }
    }
}

fn paper_width_name(w: PaperWidth) -> (r: String)
    ensures
        r@ == paper_width_label(w),
{
    match w {
        PaperWidth::Width50mm => String::from_str("Width50mm"),
        PaperWidth::Width78mm => String::from_str("Width78mm"),
        PaperWidth::Width80mm => String::from_str("Width80mm"),
    }
}

fn font_name(f: Font) -> (r: String)
    ensures
        r@ == font_label(f),
{
    match f {
        Font::FontA => String::from_str("FontA"),
        Font::FontB => String::from_str("FontB"),
        Font::FontC => String::from_str("FontC"),
    }
}

fn justification_name(j: Justification) -> (r: String)
    ensures
        r@ == justification_label(j),
{
    match j {
        Justification::Left => String::from_str("Left"),
        Justification::Center => String::from_str("Center"),
        Justification::Right => String::from_str("Right"),
    }
}

impl EmulatorState {
    /// The commands in the history, oldest first.
    pub open spec fn history(&self) -> Seq<CommandModel> {
        history_commands(self.command_history@)
    }

    /// A fresh emulator: a fresh printer, an empty history bounded at 1000.
    pub fn new() -> (r: EmulatorState)
        ensures
            r.printer_state@ == initial_printer(),
            r.command_history@.len() == 0,
            r.max_history_size == DEFAULT_MAX_HISTORY,
    {
        EmulatorState {
            printer_state: PrinterState::new(),
            command_history: VecDeque::new(),
            max_history_size: DEFAULT_MAX_HISTORY,
            start_time: SystemTime::now(),
        }
    }

    /// Records `command` at the end of the history, drops the oldest entries
    /// while the history is longer than its bound, and applies the command to
    /// the printer.
    pub fn process_command(&mut self, command: &EscPosCommand)
        ensures
            final(self).history() == keep_last(
                old(self).history().push(command@),
                old(self).max_history_size as nat,
            ),
            without_raw_data(old(self).command_history@) ==> without_raw_data(
                final(self).command_history@,
            ),
            final(self).printer_state@ == apply_command(old(self).printer_state@, command@),
            final(self).max_history_size == old(self).max_history_size,
            final(self).start_time == old(self).start_time,
    {
        let entry = CommandEntry {
            timestamp: SystemTime::now(),
            command: command.duplicate(),
            raw_data: Vec::new(),
        };
        self.command_history.push_back(entry);
        let ghost pushed = self.command_history@;
        let ghost dropped: int = 0;
        proof {
            assert(history_commands(pushed) =~= old(self).history().push(command@));
            assert(pushed.skip(0) =~= pushed);
        }
        while self.command_history.len() > self.max_history_size
            invariant
                self.max_history_size == old(self).max_history_size,
                self.printer_state == old(self).printer_state,
                self.start_time == old(self).start_time,
                0 <= dropped <= pushed.len(),
                self.command_history@ == pushed.skip(dropped),
                dropped > 0 ==> self.command_history@.len() >= self.max_history_size,
            decreases self.command_history@.len(),
        {
            self.command_history.pop_front();
            proof {
                assert(self.command_history@ =~= pushed.skip(dropped + 1));
                dropped = dropped + 1;
            }
        }
        proof {
            let cap = self.max_history_size as nat;
            let h = history_commands(pushed);
            assert(self.history() =~= h.skip(dropped));
            assert(keep_last(h, cap) =~= h.skip(dropped));
            assert(without_raw_data(old(self).command_history@) ==> without_raw_data(
                self.command_history@,
            )) by {
                if without_raw_data(old(self).command_history@) {
                    assert forall|i: int| 0 <= i < self.command_history@.len() implies (
                    #[trigger] self.command_history@[i]).raw_data@.len() == 0 by {
                        assert(self.command_history@[i] == pushed[i + dropped]);
                    }
                }
            }
        }
        self.printer_state.process_command(command);
    }

    /// The history, oldest entry first.
    pub fn get_command_history(&self) -> (r: &VecDeque<CommandEntry>)
        ensures
            r@ == self.command_history@,
    {
        &self.command_history
    }

    /// Forgets every entry of the history.
    pub fn clear_history(&mut self)
        ensures
            final(self).command_history@.len() == 0,
            final(self).printer_state == old(self).printer_state,
            final(self).max_history_size == old(self).max_history_size,
    {
        self.command_history.clear();
    }

    /// Removes the printed lines; formatting and history are kept.
    pub fn clear_printer_buffer(&mut self)
        ensures
            final(self).printer_state@ == (PrinterView {
                lines: Seq::empty(),
                ..old(self).printer_state@
            }),
            final(self).command_history == old(self).command_history,
            final(self).max_history_size == old(self).max_history_size,
    {
        self.printer_state.clear_buffer();
    }

    /// The printer.
    pub fn get_printer_state(&self) -> (r: &PrinterState)
        ensures
            *r == self.printer_state,
    {
        &self.printer_state
    }

    /// Formatting as names, flags, and the line, history and DPI figures.
    pub fn get_status_summary(&self) -> (r: StatusSummary)
        ensures
            r.paper_width@ == paper_width_label(self.printer_state.paper_width),
            r.current_font@ == font_label(self.printer_state.current_font),
            r.justification@ == justification_label(self.printer_state.justification),
            r.emphasis == self.printer_state.emphasis,
            r.underline == self.printer_state.underline,
            r.italic == self.printer_state.italic,
            r.buffer_lines == self.printer_state.buffer@.len(),
            r.command_count == self.command_history@.len(),
            r.dpi == self.printer_state.dpi,
    {
        StatusSummary {
            paper_width: paper_width_name(self.printer_state.paper_width),
            current_font: font_name(self.printer_state.current_font),
            justification: justification_name(self.printer_state.justification),
            emphasis: self.printer_state.emphasis,
            underline: self.printer_state.underline,
            italic: self.printer_state.italic,
            buffer_lines: self.printer_state.buffer.len(),
            command_count: self.command_history.len(),
            dpi: self.printer_state.dpi,
        }
    }

    /// Selects the paper roll by its width in millimetres (50, 78 or 80; any
    /// other width selects 80).
    pub fn set_paper_width(&mut self, width_mm: u32)
        ensures
            final(self).printer_state@ == (PrinterView {
                paper_width: paper_width_of_mm(width_mm),
                ..old(self).printer_state@
            }),
            final(self).command_history == old(self).command_history,
    {
        let paper_width = match width_mm {
            50 => PaperWidth::Width50mm,
            78 => PaperWidth::Width78mm,
            _ => PaperWidth::Width80mm,
        };
        self.printer_state.set_paper_width(paper_width);
    }

    /// Sets the printer's line height.
    pub fn set_line_height(&mut self, height: u32)
        ensures
            final(self).printer_state@ == (PrinterView {
                line_height: height,
                ..old(self).printer_state@
            }),
            final(self).command_history == old(self).command_history,
    {
        self.printer_state.set_line_height(height);
    }

    /// Sets the printer's font size.
    pub fn set_font_size(&mut self, size: u32)
        ensures
            final(self).printer_state@ == (PrinterView {
                font_size: size,
                ..old(self).printer_state@
            }),
            final(self).command_history == old(self).command_history,
    {
        self.printer_state.set_font_size(size);
    }
}

} // verus!
