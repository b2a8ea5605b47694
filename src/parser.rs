use vstd::prelude::*;
use crate::commands::{commands_view, CommandModel, EscPosCommand, Font, Justification};

verus! {

/// The escape byte that opens a control sequence.
pub const ESC: u8 = 0x1B;

/// Line feed: a new line.
pub const LF: u8 = 0x0A;

/// Carriage return.
pub const CR: u8 = 0x0D;

/// What `String::from_utf8_lossy` makes of a byte sequence.
pub uninterp spec fn utf8_lossy(bytes: Seq<u8>) -> Seq<char>;

/// Relies on `String::from_utf8_lossy`: the text is a function of the bytes
/// alone (invalid sequences become U+FFFD).
#[verifier::external_body]
fn decode_text(bytes: &[u8]) -> (r: String)
    ensures
        r@ == utf8_lossy(bytes@),
{
    String::from_utf8_lossy(bytes).into_owned()
}

/// A byte that belongs to a run of printable text.
pub open spec fn is_text_byte(b: u8) -> bool {
    b != ESC && b != LF && b != CR
}

/// The length of the run of text bytes that starts `s`.
pub open spec fn text_run_len(s: Seq<u8>) -> nat
    decreases s.len(),
{
    if s.len() > 0 && is_text_byte(s[0]) {
        1 + text_run_len(s.drop_first())
    } else {
        0
    }
}

/// Decoding stops on an empty buffer, or on an escape byte with nothing after it.
pub open spec fn halts(s: Seq<u8>) -> bool {
    s.len() == 0 || (s.len() == 1 && s[0] == ESC)
}

/// The font selected by a parameter byte.
pub open spec fn font_of(b: u8) -> Font {
    if b == 1 {
        Font::FontB
    } else if b == 2 {
        Font::FontC
    } else {
        Font::FontA
    }
}

/// The alignment selected by a parameter byte.
pub open spec fn justification_of(b: u8) -> Justification {
    if b == 1 {
        Justification::Center
    } else if b == 2 {
        Justification::Right
    } else {
        Justification::Left
    }
}

/// The payload length declared by a raster image header: width × height / 8,
/// with width and height big-endian at offsets 2 and 4.
pub open spec fn image_payload_len(s: Seq<u8>) -> int
    recommends
        s.len() >= 6,
{
    ((s[2] as int) * 256 + (s[3] as int)) * ((s[4] as int) * 256 + (s[5] as int)) / 8
}

/// The payload of a raster image command: empty when the header or the
/// declared payload is not fully buffered.
pub open spec fn image_payload(s: Seq<u8>) -> Seq<u8> {
    if s.len() >= 6 && s.len() >= 6 + image_payload_len(s) {
        s.subrange(6, 6 + image_payload_len(s))
    } else {
        Seq::empty()
    }
}

/// The command an escape sequence at the start of `s` decodes to. The
/// parameter byte, when one is read, is `s[2]`.
pub open spec fn esc_command(s: Seq<u8>) -> CommandModel
    recommends
        s.len() >= 2,
{
    let has_arg = s.len() >= 3;
    let op = s[1];
    if op == 0x40u8 {
        CommandModel::InitializePrinter
    } else if op == 0x4Du8 {
        CommandModel::SetFont(if has_arg { font_of(s[2]) } else { Font::FontA })
    } else if op == 0x61u8 {
        CommandModel::SetJustification(
            if has_arg { justification_of(s[2]) } else { Justification::Left },
        )
    } else if op == 0x45u8 {
        CommandModel::SetEmphasis(true)
    } else if op == 0x46u8 {
        CommandModel::SetEmphasis(false)
    } else if op == 0x2Du8 {
        CommandModel::SetUnderline(has_arg && s[2] != 0)
    } else if op == 0x34u8 {
        CommandModel::SetItalic(true)
    } else if op == 0x35u8 {
        CommandModel::SetItalic(false)
    } else if op == 0x33u8 {
        CommandModel::SetLineHeight(if has_arg { s[2] as u32 } else { 24 })
    } else if op == 0x21u8 {
        CommandModel::SetFontSize(if has_arg { s[2] as u32 } else { 12 })
    } else if op == 0x6Du8 || op == 0x69u8 {
        CommandModel::CutPaper
    } else if op == 0x4Au8 {
        CommandModel::LineFeed
    } else if op == 0x2Au8 {
        CommandModel::PrintImage(image_payload(s))
    } else {
        CommandModel::Unknown(s)
    }
}

/// How many bytes one decoding step at the start of `s` consumes. An escape
/// sequence always advances by two bytes, whatever its parameters.
pub open spec fn step_len(s: Seq<u8>) -> nat
    recommends
        !halts(s),
{
    if s[0] == ESC {
        2
    } else if s[0] == LF || s[0] == CR {
        1
    } else {
        text_run_len(s)
    }
}

/// The command, if any, that one decoding step at the start of `s` yields.
pub open spec fn step_command(s: Seq<u8>) -> Option<CommandModel>
    recommends
        !halts(s),
{
    if s[0] == LF {
        Some(CommandModel::NewLine)
    } else if s[0] == CR {
        Some(CommandModel::CarriageReturn)
    } else if s[0] == ESC {
        Some(esc_command(s))
    } else {
        let t = utf8_lossy(s.take(text_run_len(s) as int));
        if t.len() > 0 {
            Some(CommandModel::Text(t))
        } else {
            None
        }
    }
}

/// The command of a step as a sequence of zero or one commands.
pub open spec fn option_seq(c: Option<CommandModel>) -> Seq<CommandModel> {
    match c {
        Some(x) => seq![x],
        None => Seq::empty(),
    }
}

/// The commands decoded from the buffer `s`, in order.
pub open spec fn decoded(s: Seq<u8>) -> Seq<CommandModel>
    decreases s.len(),
    via decoded_decreases
{
    if halts(s) {
        Seq::empty()
    } else {
        option_seq(step_command(s)) + decoded(s.skip(step_len(s) as int))
    }
}

/// How many leading bytes of `s` decoding consumes.
pub open spec fn consumed(s: Seq<u8>) -> nat
    decreases s.len(),
    via consumed_decreases
{
    if halts(s) {
        0
    } else {
        step_len(s) + consumed(s.skip(step_len(s) as int))
    }
}

#[via_fn]
proof fn decoded_decreases(s: Seq<u8>) {
    if !halts(s) {
        lemma_step_len_bounds(s);
    }
}

#[via_fn]
proof fn consumed_decreases(s: Seq<u8>) {
    if !halts(s) {
        lemma_step_len_bounds(s);
    }
}

proof fn lemma_text_run_len_bounds(s: Seq<u8>)
    ensures
        text_run_len(s) <= s.len(),
        s.len() > 0 && is_text_byte(s[0]) ==> text_run_len(s) >= 1,
    decreases s.len(),
{
    if s.len() > 0 && is_text_byte(s[0]) {
        lemma_text_run_len_bounds(s.drop_first());
    }
}

/// A step of decoding consumes at least one byte and no more than there are.
pub proof fn lemma_step_len_bounds(s: Seq<u8>)
    requires
        !halts(s),
    ensures
        1 <= step_len(s) <= s.len(),
{
    lemma_text_run_len_bounds(s);
}

/// Decoding stops only where the remaining bytes halt it: what is left over
/// is nothing, or one trailing escape byte.
pub proof fn lemma_leftover_halts(s: Seq<u8>)
    ensures
        halts(s.skip(consumed(s) as int)),
        consumed(s) <= s.len(),
    decreases s.len(),
{
    if halts(s) {
        assert(s.skip(0) =~= s);
    } else {
        let n = step_len(s);
        lemma_step_len_bounds(s);
        lemma_leftover_halts(s.skip(n as int));
        assert(s.skip(consumed(s) as int) =~= s.skip(n as int).skip(consumed(s.skip(n as int)) as int));
    }
}

/// Once a call has consumed what it can, a call with no new bytes decodes
/// nothing and leaves the buffered bytes as they are.
pub proof fn lemma_no_new_bytes(s: Seq<u8>)
    ensures
        ({
            let rest = s.skip(consumed(s) as int);
            &&& decoded(rest + Seq::<u8>::empty()) == Seq::<CommandModel>::empty()
            &&& (rest + Seq::<u8>::empty()).skip(consumed(rest + Seq::<u8>::empty()) as int) == rest
        }),
{
    lemma_leftover_halts(s);
    let rest = s.skip(consumed(s) as int);
    assert(rest + Seq::<u8>::empty() =~= rest);
    assert(rest.skip(0) =~= rest);
}

/// Every decoding step taken within `a` reads the same whether or not `b`
/// follows it: no text run, parameter byte, image payload or unknown
/// sequence is cut by the boundary between `a` and `b`.
pub open spec fn split_agrees(a: Seq<u8>, b: Seq<u8>) -> bool
    decreases a.len(),
    via split_agrees_decreases
{
    if halts(a) {
        true
    } else {
        &&& step_len(a) == step_len(a + b)
        &&& step_command(a) == step_command(a + b)
        &&& split_agrees(a.skip(step_len(a) as int), b)
    }
}

#[via_fn]
proof fn split_agrees_decreases(a: Seq<u8>, b: Seq<u8>) {
    if !halts(a) {
        lemma_step_len_bounds(a);
    }
}

/// Feeding `a` and then `b` to a decoder yields the same commands, and leaves
/// the same bytes buffered, as feeding `a + b` at once, wherever the boundary
/// cuts no decoding step.
pub proof fn lemma_chunked_decoding(a: Seq<u8>, b: Seq<u8>)
    requires
        split_agrees(a, b),
    ensures
        ({
            let rest = a.skip(consumed(a) as int);
            &&& decoded(a) + decoded(rest + b) == decoded(a + b)
            &&& (rest + b).skip(consumed(rest + b) as int) == (a + b).skip(consumed(a + b) as int)
        }),
    decreases a.len(),
{
    if halts(a) {
        assert(a.skip(0) =~= a);
        assert(decoded(a) + decoded(a + b) =~= decoded(a + b));
    } else {
        let n = step_len(a);
        lemma_step_len_bounds(a);
        let tail = a.skip(n as int);
        assert(!halts(a + b));
        assert((a + b).skip(n as int) =~= tail + b);
        lemma_chunked_decoding(tail, b);
        let k = consumed(tail);
        lemma_leftover_halts(tail);
        assert(a.skip(consumed(a) as int) =~= tail.skip(k as int));
        let c = option_seq(step_command(a));
        assert(decoded(a) + decoded(tail.skip(k as int) + b) =~= c + (decoded(tail) + decoded(tail.skip(k as int) + b)));
        lemma_leftover_halts(tail + b);
        assert((a + b).skip(consumed(a + b) as int) =~= (tail + b).skip(consumed(tail + b) as int));
    }
}

/// A resumable decoder: bytes that do not yet form a whole command stay
/// buffered until the next call.
#[derive(Clone)]
pub struct EscPosParser {
    buffer: Vec<u8>,
}

impl View for EscPosParser {
    type V = Seq<u8>;

    /// The bytes received but not yet consumed.
    closed spec fn view(&self) -> Seq<u8> {
        self.buffer@
    }
}

impl Default for EscPosParser {
    fn default() -> (r: EscPosParser)
        ensures
            r@ == Seq::<u8>::empty(),
    {
        EscPosParser::new()
    }
}

impl EscPosParser {
    /// A decoder with nothing buffered.
    pub fn new() -> (r: EscPosParser)
        ensures
            r@ == Seq::<u8>::empty(),
    {
        EscPosParser { buffer: Vec::new() }
    }

    /// Appends `data` to the buffered bytes, decodes as far as whole commands
    /// reach, and keeps what is left (nothing, or a lone trailing escape byte)
    /// for the next call.
    pub fn parse_stream(&mut self, data: &[u8]) -> (r: Vec<EscPosCommand>)
        ensures
            commands_view(r@) == decoded(old(self)@ + data@),
            final(self)@ == (old(self)@ + data@).skip(consumed(old(self)@ + data@) as int),
    {
        self.buffer.extend_from_slice(data);
        proof {
            assert(self.buffer@ =~= old(self)@ + data@);
        }
        let ghost s = self.buffer@;
        let n = self.buffer.len();
        let mut commands: Vec<EscPosCommand> = Vec::new();
        let mut i: usize = 0;
        let mut waiting = false;
        proof {
            assert(s.skip(0) =~= s);
        }
        while i < n && !waiting
            invariant
                self.buffer@ == s,
                n == s.len(),
                i <= n,
                commands_view(commands@) + decoded(s.skip(i as int)) == decoded(s),
                i + consumed(s.skip(i as int)) == consumed(s),
                waiting ==> halts(s.skip(i as int)),
            decreases n - i + (if waiting { 0int } else { 1int }),
        {
            let ghost rest = s.skip(i as int);
            let ghost before = commands@;
            let b = self.buffer[i];
            if b == LF {
                commands.push(EscPosCommand::NewLine);
                i = i + 1;
            } else if b == CR {
                commands.push(EscPosCommand::CarriageReturn);
                i = i + 1;
            } else if b == ESC {
                if i + 1 < n {
                    let cmd = self.parse_esc_command(&self.buffer.as_slice()[i..n]);
                    proof {
                        assert(s.subrange(i as int, n as int) =~= rest);
                    }
                    commands.push(cmd);
                    i = i + 2;
                } else {
                    waiting = true;
                }
            } else {
                let start = i;
                while i < n && self.buffer[i] != ESC && self.buffer[i] != LF && self.buffer[i] != CR
                    invariant
                        self.buffer@ == s,
                        n == s.len(),
                        start <= i <= n,
                        rest == s.skip(start as int),
                        text_run_len(rest) == (i - start) + text_run_len(s.skip(i as int)),
                    decreases n - i,
                {
                    proof {
                        assert(s.skip(i as int).drop_first() =~= s.skip(i + 1));
                    }
                    i = i + 1;
                }
                proof {
                    assert(text_run_len(s.skip(i as int)) == 0);
                    assert(rest.take(text_run_len(rest) as int) =~= s.subrange(start as int, i as int));
                }
                let text = decode_text(&self.buffer.as_slice()[start..i]);
                if !text.as_str().is_empty() {
                    commands.push(EscPosCommand::Text(text));
                }
            }
            proof {
                if !waiting {
                    assert(rest.skip(step_len(rest) as int) =~= s.skip(i as int));
                    assert(commands_view(commands@) =~= commands_view(before) + option_seq(step_command(rest)));
                }
            }
        }
        proof {
            if !waiting {
                assert(s.skip(i as int).len() == 0);
            }
            assert(commands_view(commands@) =~= commands_view(commands@) + decoded(s.skip(i as int)));
        }
        let tail = self.buffer.split_off(i);
        self.buffer = tail;
        proof {
            assert(self.buffer@ =~= s.skip(i as int));
        }
        commands
    }

    /// Decodes the escape sequence at the start of `data`.
    fn parse_esc_command(&self, data: &[u8]) -> (r: EscPosCommand)
        requires
            data@.len() >= 2,
        ensures
            r@ == esc_command(data@),
    {
        let has_arg = data.len() >= 3;
        match data[1] {
            // @: initialize
            0x40 => EscPosCommand::InitializePrinter,
            // M: font
            0x4D => {
                if has_arg {
                    let font = match data[2] {
                        1 => Font::FontB,
                        2 => Font::FontC,
                        _ => Font::FontA,
                    };
                    EscPosCommand::SetFont(font)
                } else {
                    EscPosCommand::SetFont(Font::FontA)
                }
            },
            // a: justification
            0x61 => {
                if has_arg {
                    let justification = match data[2] {
                        1 => Justification::Center,
                        2 => Justification::Right,
                        _ => Justification::Left,
                    };
                    EscPosCommand::SetJustification(justification)
                } else {
                    EscPosCommand::SetJustification(Justification::Left)
                }
            },
            // E: emphasis on
            0x45 => EscPosCommand::SetEmphasis(true),
            // F: emphasis off
            0x46 => EscPosCommand::SetEmphasis(false),
            // -: underline
            0x2D => EscPosCommand::SetUnderline(has_arg && data[2] != 0),
            // 4: italic on
            0x34 => EscPosCommand::SetItalic(true),
            // 5: italic off
            0x35 => EscPosCommand::SetItalic(false),
            // 3: line height
            0x33 => {
                if has_arg {
                    EscPosCommand::SetLineHeight(data[2] as u32)
                } else {
                    EscPosCommand::SetLineHeight(24)
                }
            },
            // !: font size
            0x21 => {
                if has_arg {
                    EscPosCommand::SetFontSize(data[2] as u32)
                } else {
                    EscPosCommand::SetFontSize(12)
                }
            },
            // m, i: cut
            0x6D | 0x69 => EscPosCommand::CutPaper,
            // J: feed
            0x4A => EscPosCommand::LineFeed,
            // *: raster image
            0x2A => {
                if data.len() >= 6 {
                    let width: u64 = (data[2] as u64) * 256 + (data[3] as u64);
                    let height: u64 = (data[4] as u64) * 256 + (data[5] as u64);
                    proof {
                        assert(width * height <= 65535 * 65535) by (nonlinear_arith)
                            requires
                                width <= 65535,
                                height <= 65535,
                        ;
                    }
                    let payload_len: u64 = width * height / 8;
                    if data.len() as u64 >= 6 + payload_len {
                        let end = 6 + payload_len as usize;
                        EscPosCommand::PrintImage(vstd::slice::slice_to_vec(&data[6..end]))
                    } else {
                        EscPosCommand::PrintImage(Vec::new())
                    }
                } else {
                    EscPosCommand::PrintImage(Vec::new())
                }
            },
            _ => EscPosCommand::Unknown(vstd::slice::slice_to_vec(data)),
        }
    }
}

} // verus!
