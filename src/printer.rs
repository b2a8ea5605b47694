use vstd::prelude::*;
use vstd::string::{StrSliceExecFns, StringExecFns};
use crate::commands::{CommandModel, EscPosCommand, Font, Justification};

verus! {

/// The supported paper rolls.
#[derive(Debug, Clone, Copy, PartialEq, Eq, Structural)]
pub enum PaperWidth {
    Width50mm,
    Width78mm,
    Width80mm,
}

/// The printable width of a roll, in dots.
pub open spec fn width_dots(w: PaperWidth) -> u32 {
    match w {
        PaperWidth::Width50mm => 384,
        PaperWidth::Width78mm => 576,
        PaperWidth::Width80mm => 640,
    }
}

/// The width of one character, in dots, at a font size.
pub open spec fn char_width_dots(font_size: u32) -> u32 {
    if 8 <= font_size <= 12 {
        8
    } else if 13 <= font_size <= 16 {
        10
    } else if 17 <= font_size <= 24 {
        12
    } else {
        8
    }
}

/// How many characters fit on one line.
pub open spec fn max_chars(w: PaperWidth, font_size: u32) -> u32 {
    (width_dots(w) / char_width_dots(font_size)) as u32
}

impl PaperWidth {
    /// The roll's width in dots.
    pub fn get_width_dots(&self) -> (r: u32)
        ensures
            r == width_dots(*self),
    {
        match self {
            PaperWidth::Width50mm => 384,
            PaperWidth::Width78mm => 576,
            PaperWidth::Width80mm => 640,
        }
    }

    /// How many characters of the given font size fit on one line.
    pub fn get_max_chars(&self, font_size: u32) -> (r: u32)
        ensures
            r == max_chars(*self, font_size),
    {
        let dots = self.get_width_dots();
        if 8 <= font_size && font_size <= 12 {
            dots / 8
        } else if 13 <= font_size && font_size <= 16 {
            dots / 10
        } else if 17 <= font_size && font_size <= 24 {
            dots / 12
        } else {
            dots / 8
        }
    }
}

/// Formatting state and the printed lines.
#[derive(Debug, Clone)]
pub struct PrinterState {
    pub paper_width: PaperWidth,
    pub current_font: Font,
    pub justification: Justification,
    pub emphasis: bool,
    pub underline: bool,
    pub italic: bool,
    pub buffer: Vec<String>,
    pub line_height: u32,
    pub font_size: u32,
    pub dpi: u32,
}

/// The value of a printer state, with each line as its characters.
pub struct PrinterView {
    pub paper_width: PaperWidth,
    pub current_font: Font,
    pub justification: Justification,
    pub emphasis: bool,
    pub underline: bool,
    pub italic: bool,
    pub lines: Seq<Seq<char>>,
    pub line_height: u32,
    pub font_size: u32,
    pub dpi: u32,
}

impl View for PrinterState {
    type V = PrinterView;

    open spec fn view(&self) -> PrinterView {
        PrinterView {
            paper_width: self.paper_width,
            current_font: self.current_font,
            justification: self.justification,
            emphasis: self.emphasis,
            underline: self.underline,
            italic: self.italic,
            lines: self.buffer@.map_values(|l: String| l@),
            line_height: self.line_height,
            font_size: self.font_size,
            dpi: self.dpi,
        }
    }
}

/// A fresh printer: 80mm paper, font A, left aligned, no styling, no lines,
/// line height 24, font size 12, 180 DPI.
pub open spec fn initial_printer() -> PrinterView {
    PrinterView {
        paper_width: PaperWidth::Width80mm,
        current_font: Font::FontA,
        justification: Justification::Left,
        emphasis: false,
        underline: false,
        italic: false,
        lines: Seq::empty(),
        line_height: 24,
        font_size: 12,
        dpi: 180,
    }
}

/// The lines after placing the text token `t`: it starts the first line, is
/// appended to the last line if the result fits in `max` characters, and is
/// otherwise placed whole on a new line.
pub open spec fn text_added(lines: Seq<Seq<char>>, t: Seq<char>, max: nat) -> Seq<Seq<char>> {
    if lines.len() == 0 {
        seq![t]
    } else if lines.last().len() + t.len() > max {
        lines.push(t)
    } else {
        lines.update(lines.len() - 1, lines.last() + t)
    }
}

/// A cut line: `n` dashes.
pub open spec fn separator(n: nat) -> Seq<char> {
    Seq::new(n, |i: int| '-')
}

/// The placeholder printed for an image.
pub open spec fn image_placeholder() -> Seq<char> {
    "[IMAGE]"@
}

/// The printer after applying one command.
pub open spec fn apply_command(p: PrinterView, c: CommandModel) -> PrinterView {
    let max = max_chars(p.paper_width, p.font_size) as nat;
    match c {
        CommandModel::Text(t) => PrinterView { lines: text_added(p.lines, t, max), ..p },
        CommandModel::NewLine => PrinterView { lines: p.lines.push(Seq::empty()), ..p },
        CommandModel::SetFont(f) => PrinterView { current_font: f, ..p },
        CommandModel::SetJustification(j) => PrinterView { justification: j, ..p },
        CommandModel::SetEmphasis(b) => PrinterView { emphasis: b, ..p },
        CommandModel::SetUnderline(b) => PrinterView { underline: b, ..p },
        CommandModel::SetItalic(b) => PrinterView { italic: b, ..p },
        CommandModel::CutPaper => PrinterView { lines: p.lines.push(separator(max)), ..p },
        CommandModel::PrintImage(_) => PrinterView {
            lines: text_added(p.lines, image_placeholder(), max),
            ..p
        },
        CommandModel::SetLineHeight(h) => PrinterView { line_height: h, ..p },
        CommandModel::SetFontSize(s) => PrinterView { font_size: s, ..p },
        _ => p,
    }
}

impl PrinterState {
    /// A fresh printer.
    pub fn new() -> (r: PrinterState)
        ensures
            r@ == initial_printer(),
    {
        let r = PrinterState {
            paper_width: PaperWidth::Width80mm,
            current_font: Font::FontA,
            justification: Justification::Left,
            emphasis: false,
            underline: false,
            italic: false,
            buffer: Vec::new(),
            line_height: 24,
            font_size: 12,
            dpi: 180,
        };
        proof {
            assert(r@.lines =~= Seq::<Seq<char>>::empty());
        }
        r
    }

    /// Applies one command to the formatting state and the lines.
    pub fn process_command(&mut self, command: &EscPosCommand)
        ensures
            final(self)@ == apply_command(old(self)@, command@),
    {
        match command {
            EscPosCommand::Text(text) => {
                self.add_text(text.as_str());
            },
            EscPosCommand::NewLine => {
                self.add_new_line();
            },
            EscPosCommand::SetFont(font) => {
                self.current_font = *font;
            },
            EscPosCommand::SetJustification(justification) => {
                self.justification = *justification;
            },
            EscPosCommand::SetEmphasis(enabled) => {
                self.emphasis = *enabled;
            },
            EscPosCommand::SetUnderline(enabled) => {
                self.underline = *enabled;
            },
            EscPosCommand::SetItalic(enabled) => {
                self.italic = *enabled;
            },
            EscPosCommand::CutPaper => {
                self.add_separator();
            },
            EscPosCommand::PrintImage(_) => {
                self.add_text("[IMAGE]");
            },
            EscPosCommand::SetLineHeight(height) => {
                self.line_height = *height;
            },
            EscPosCommand::SetFontSize(size) => {
                self.font_size = *size;
            },
            _ => {},
        }
    }

    fn add_text(&mut self, text: &str)
        ensures
            final(self)@ == (PrinterView {
                lines: text_added(
                    old(self)@.lines,
                    text@,
                    max_chars(old(self).paper_width, old(self).font_size) as nat,
                ),
                ..old(self)@
            }),
    {
        let ghost old_lines = self@.lines;
        if self.buffer.len() == 0 {
            self.buffer.push(String::from_str(text));
            proof {
                assert(self@.lines =~= seq![text@]);
            }
        } else {
            let max_chars = self.paper_width.get_max_chars(self.font_size) as usize;
            let mut last_line = self.buffer.pop().unwrap();
            let ghost kept = self.buffer@;
            let current_length = last_line.as_str().unicode_len();
            let text_length = text.unicode_len();
            if current_length > max_chars || text_length > max_chars - current_length {
                self.buffer.push(last_line);
                self.buffer.push(String::from_str(text));
                proof {
                    assert(kept.map_values(|l: String| l@) =~= old_lines.drop_last());
                    assert(self@.lines =~= old_lines.push(text@));
                }
            } else {
                last_line.append(text);
                self.buffer.push(last_line);
                proof {
                    assert(kept.map_values(|l: String| l@) =~= old_lines.drop_last());
                    assert(self@.lines =~= old_lines.update(old_lines.len() - 1, old_lines.last() + text@));
                }
            }
        }
    }

    fn add_new_line(&mut self)
        ensures
            final(self)@ == (PrinterView { lines: old(self)@.lines.push(Seq::empty()), ..old(self)@ }),
    {
        self.buffer.push(String::new());
        proof {
            assert(self@.lines =~= old(self)@.lines.push(Seq::empty()));
        }
    }

    fn add_separator(&mut self)
        ensures
            final(self)@ == (PrinterView {
                lines: old(self)@.lines.push(
                    separator(max_chars(old(self).paper_width, old(self).font_size) as nat),
                ),
                ..old(self)@
            }),
    {
        let max_chars = self.paper_width.get_max_chars(self.font_size);
        let mut line = String::new();
        let mut k: u32 = 0;
        while k < max_chars
            invariant
                k <= max_chars,
                line@ == separator(k as nat),
            decreases max_chars - k,
        {
            line.append("-");
            k = k + 1;
            proof {
                reveal_strlit("-");
                assert("-"@ =~= seq!['-']);
                assert(line@ =~= separator(k as nat));
            }
        }
        self.buffer.push(line);
        proof {
            assert(self@.lines =~= old(self)@.lines.push(separator(max_chars as nat)));
        }
    }

    /// Removes every line; formatting state is kept.
    pub fn clear_buffer(&mut self)
        ensures
            final(self)@ == (PrinterView { lines: Seq::empty(), ..old(self)@ }),
    {
        self.buffer.clear();
        proof {
            assert(self@.lines =~= Seq::<Seq<char>>::empty());
        }
    }

    /// The printed lines.
    pub fn get_buffer(&self) -> (r: &[String])
        ensures
            r@ == self.buffer@,
    {
        self.buffer.as_slice()
    }

    /// The paper's width in dots.
    pub fn get_paper_width_dots(&self) -> (r: u32)
        ensures
            r == width_dots(self.paper_width),
    {
        self.paper_width.get_width_dots()
    }

    /// The paper's width less 30 dots of margins.
    pub fn get_printing_width_dots(&self) -> (r: u32)
        ensures
            r == width_dots(self.paper_width) - 30,
    {
        let dots = self.paper_width.get_width_dots();
        if dots >= 30 {
            dots - 30
        } else {
            0
        }
    }

    /// The height of the printed lines in dots: line count × line height.
    pub fn calculate_total_height(&self) -> (r: u32)
        requires
            self.buffer@.len() <= u32::MAX,
            self.buffer@.len() * self.line_height <= u32::MAX,
        ensures
            r == self.buffer@.len() * self.line_height,
    {
        let lines = self.buffer.len() as u32;
        lines * self.line_height
    }

    /// Selects the paper roll.
    pub fn set_paper_width(&mut self, width: PaperWidth)
        ensures
            final(self)@ == (PrinterView { paper_width: width, ..old(self)@ }),
    {
        self.paper_width = width;
    }

    /// Sets the line height.
    pub fn set_line_height(&mut self, height: u32)
        ensures
            final(self)@ == (PrinterView { line_height: height, ..old(self)@ }),
    {
        self.line_height = height;
    }

    /// Sets the font size.
    pub fn set_font_size(&mut self, size: u32)
        ensures
            final(self)@ == (PrinterView { font_size: size, ..old(self)@ }),
    {
        self.font_size = size;
    }
}

} // verus!
