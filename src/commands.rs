use vstd::prelude::*;

verus! {

/// One of the three printer fonts.
#[derive(Debug, Clone, Copy, PartialEq, Eq, Structural)]
pub enum Font {
    FontA,
    FontB,
    FontC,
}

/// Horizontal alignment of printed text.
#[derive(Debug, Clone, Copy, PartialEq, Eq, Structural)]
pub enum Justification {
    Left,
    Center,
    Right,
}

/// A decoded printer command.
#[derive(Debug, Clone, PartialEq)]
pub enum EscPosCommand {
    Text(String),
    NewLine,
    LineFeed,
    CarriageReturn,
    SetFont(Font),
    SetFontSize(u32),
    SetJustification(Justification),
    SetEmphasis(bool),
    SetUnderline(bool),
    SetItalic(bool),
    SetLineHeight(u32),
    CutPaper,
    PrintImage(Vec<u8>),
    InitializePrinter,
    Unknown(Vec<u8>),
}

/// The mathematical value of a command: text as characters, payloads as bytes.
pub enum CommandModel {
    Text(Seq<char>),
    NewLine,
    LineFeed,
    CarriageReturn,
    SetFont(Font),
    SetFontSize(u32),
    SetJustification(Justification),
    SetEmphasis(bool),
    SetUnderline(bool),
    SetItalic(bool),
    SetLineHeight(u32),
    CutPaper,
    PrintImage(Seq<u8>),
    InitializePrinter,
    Unknown(Seq<u8>),
}

impl View for EscPosCommand {
    type V = CommandModel;

    open spec fn view(&self) -> CommandModel {
        match self {
            EscPosCommand::Text(t) => CommandModel::Text(t@),
            EscPosCommand::NewLine => CommandModel::NewLine,
            EscPosCommand::LineFeed => CommandModel::LineFeed,
            EscPosCommand::CarriageReturn => CommandModel::CarriageReturn,
            EscPosCommand::SetFont(f) => CommandModel::SetFont(*f),
            EscPosCommand::SetFontSize(n) => CommandModel::SetFontSize(*n),
            EscPosCommand::SetJustification(j) => CommandModel::SetJustification(*j),
            EscPosCommand::SetEmphasis(b) => CommandModel::SetEmphasis(*b),
            EscPosCommand::SetUnderline(b) => CommandModel::SetUnderline(*b),
            EscPosCommand::SetItalic(b) => CommandModel::SetItalic(*b),
            EscPosCommand::SetLineHeight(n) => CommandModel::SetLineHeight(*n),
            EscPosCommand::CutPaper => CommandModel::CutPaper,
            EscPosCommand::PrintImage(d) => CommandModel::PrintImage(d@),
            EscPosCommand::InitializePrinter => CommandModel::InitializePrinter,
            EscPosCommand::Unknown(d) => CommandModel::Unknown(d@),
        }
    }
}

/// The models of a sequence of commands, in order.
pub open spec fn commands_view(cs: Seq<EscPosCommand>) -> Seq<CommandModel> {
    cs.map_values(|c: EscPosCommand| c@)
}

impl EscPosCommand {
    /// A copy of this command with the same model.
    pub(crate) fn duplicate(&self) -> (r: EscPosCommand)
        ensures
            r@ == self@,
    {
        match self {
            EscPosCommand::Text(t) => EscPosCommand::Text(t.clone()),
            EscPosCommand::NewLine => EscPosCommand::NewLine,
            EscPosCommand::LineFeed => EscPosCommand::LineFeed,
            EscPosCommand::CarriageReturn => EscPosCommand::CarriageReturn,
            EscPosCommand::SetFont(f) => EscPosCommand::SetFont(*f),
            EscPosCommand::SetFontSize(n) => EscPosCommand::SetFontSize(*n),
            EscPosCommand::SetJustification(j) => EscPosCommand::SetJustification(*j),
            EscPosCommand::SetEmphasis(b) => EscPosCommand::SetEmphasis(*b),
            EscPosCommand::SetUnderline(b) => EscPosCommand::SetUnderline(*b),
            EscPosCommand::SetItalic(b) => EscPosCommand::SetItalic(*b),
            EscPosCommand::SetLineHeight(n) => EscPosCommand::SetLineHeight(*n),
            EscPosCommand::CutPaper => EscPosCommand::CutPaper,
            EscPosCommand::PrintImage(d) => EscPosCommand::PrintImage(d.clone()),
            EscPosCommand::InitializePrinter => EscPosCommand::InitializePrinter,
            EscPosCommand::Unknown(d) => EscPosCommand::Unknown(d.clone()),
        }
    }
}

} // verus!
