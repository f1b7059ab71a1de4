//! The live preview of interim recognition text: what to print for each text,
//! on one self-overwriting terminal line or one line per text, cut to the
//! terminal width by display columns.
use unicode_width::{UnicodeWidthChar, UnicodeWidthStr};
use vstd::prelude::*;

use crate::text::{chars_of, is_blank, str_is_blank, string_from_chars, string_push, string_push_str, to_string};

verus! {

/// How interim text is shown.
pub enum PreviewMode {
    /// One line, rewritten in place.
    Single,
    /// A new line for each text.
    Line,
    /// Nothing is shown.
    Off,
}

/// What the preview prints for a text.
pub enum PreviewOutput {
    Nothing,
    /// Printed without a line break (the text starts with a carriage return).
    Overwrite(String),
    /// Printed as a line of its own.
    Line(String),
}

/// The preview state: mode, last text shown and the display width of the
/// last single-line output.
pub struct PreviewPrinter {
    mode: PreviewMode,
    last_text: String,
    last_display_width: usize,
}

/// The display width of a character as unicode-width reports it (`None` for
/// control characters).
pub uninterp spec fn char_width(c: char) -> Option<usize>;

/// The display width of a string as unicode-width reports it.
pub uninterp spec fn str_width(s: Seq<char>) -> usize;

/// The display width of a character (`UnicodeWidthChar::width`).
#[verifier::external_body]
fn display_width_of_char(c: char) -> (res: Option<usize>)
    ensures
        res == char_width(c),
{
    c.width()
}

/// The display width of a string (`UnicodeWidthStr::width`).
#[verifier::external_body]
fn display_width_of_str(s: &str) -> (res: usize)
    ensures
        res == str_width(s@),
{
    s.width()
}

/// The longest prefix of `s` whose display width (control characters count
/// 0) stays within `max_cols`.
pub open spec fn truncated_len(s: Seq<char>, max_cols: nat, used: nat, i: nat) -> nat
    decreases s.len() - i,
{
    if i >= s.len() {
        i
    } else {
        let w = match char_width(s[i as int]) {
            Some(w) => w as nat,
            None => 0,
        };
        if used + w > max_cols {
            i
        } else {
            truncated_len(s, max_cols, used + w, i + 1)
        }
    }
}

pub open spec fn spec_truncate(s: Seq<char>, max_cols: nat) -> Seq<char> {
    if max_cols == 0 {
        Seq::empty()
    } else {
        s.take(truncated_len(s, max_cols, 0, 0) as int)
    }
}

/// Cuts `s` to at most `max_cols` display columns, keeping whole characters.
pub fn truncate_to_display_width(s: &str, max_cols: usize) -> (res: String)
    ensures
        res@ == spec_truncate(s@, max_cols as nat),
{
    if max_cols == 0 {
        return String::new();
    }
    let chars = chars_of(s);
    let mut used: usize = 0;
    let mut i: usize = 0;
    let mut stop = false;
    while i < chars.len() && !stop
        invariant
            i <= chars@.len(),
            used <= max_cols,
            truncated_len(s@, max_cols as nat, 0, 0) == truncated_len(s@, max_cols as nat, used as nat, i as nat),
            chars@ == s@,
            stop ==> truncated_len(s@, max_cols as nat, used as nat, i as nat) == i,
        decreases chars.len() - i + (if stop { 0int } else { 1int }),
    {
        let w: usize = match display_width_of_char(chars[i]) {
            Some(w) => w,
            None => 0,
        };
        if w > max_cols - used {
            stop = true;
        } else {
            used = used + w;
            i = i + 1;
        }
    }
    string_from_chars(&chars, 0, i)
}

/// `line` fitted to a terminal of `cols` columns (the last column is left
/// free): unchanged when the width is unknown or the line fits, else cut and
/// ended with `...`.
pub open spec fn spec_shorten(line: Seq<char>, cols: Option<usize>) -> Seq<char> {
    match cols {
        None => line,
        Some(c) => if c == 0 {
            line
        } else {
            let target = (c - 1) as nat;
            if target == 0 {
                Seq::empty()
            } else if str_width(line) <= target {
                line
            } else if target <= str_width("..."@) {
                spec_truncate(line, target)
            } else {
                spec_truncate(line, (target - str_width("..."@)) as nat) + "..."@
            }
        },
    }
}

/// Fits a line to the terminal width.
pub fn shorten_to_terminal_width(line: &str, cols: Option<usize>) -> (res: String)
    ensures
        res@ == spec_shorten(line@, cols),
{
    let c = match cols {
        None => {
            return to_string(line);
        },
        Some(c) => c,
    };
    if c == 0 {
        return to_string(line);
    }
    let target = c - 1;
    if target == 0 {
        return String::new();
    }
    if display_width_of_str(line) <= target {
        return to_string(line);
    }
    let ellipsis = "...";
    let ellipsis_width = display_width_of_str(ellipsis);
    if target <= ellipsis_width {
        return truncate_to_display_width(line, target);
    }
    let mut out = truncate_to_display_width(line, target - ellipsis_width);
    string_push_str(&mut out, ellipsis);
    out
}

/// `text` with carriage returns and line feeds replaced by spaces.
pub open spec fn one_line(text: Seq<char>) -> Seq<char> {
    Seq::new(text.len(), |i: int| if text[i] == '\r' || text[i] == '\n' { ' ' } else { text[i] })
}

/// `n` spaces.
pub open spec fn spaces(n: nat) -> Seq<char> {
    Seq::new(n, |i: int| ' ')
}

pub open spec fn preview_prefix(is_final: bool) -> Seq<char> {
    if is_final {
        "[VOICE FINAL]"@
    } else {
        "[VOICE]"@
    }
}

/// The model of a preview printer.
pub struct PreviewState {
    pub mode: PreviewMode,
    pub last_text: Seq<char>,
    pub last_display_width: nat,
}

/// The single-line output for a text: carriage return, the cut line, and
/// spaces over what is left of the previous (wider) output.
pub open spec fn single_line_output(text: Seq<char>, is_final: bool, cols: Option<usize>, last_width: nat) -> (Seq<char>, nat) {
    let line = spec_shorten(preview_prefix(is_final) + seq![' '] + one_line(text), cols);
    let w = str_width(line) as nat;
    let padding = if w < last_width {
        spaces((last_width - w) as nat)
    } else {
        Seq::empty()
    };
    (seq!['\r'] + line + padding, w)
}

/// The model of `show`: nothing for a blank text, in `Off` mode, or for an
/// interim text equal to the last one; else the output of the mode, and the
/// text becomes the last one.
pub open spec fn spec_show(s: PreviewState, text: Seq<char>, is_final: bool, cols: Option<usize>) -> (PreviewState, Option<(bool, Seq<char>)>) {
    if s.mode is Off || is_blank(text) || (!is_final && text == s.last_text) {
        (s, None)
    } else {
        match s.mode {
            PreviewMode::Single => {
                let (out, w) = single_line_output(text, is_final, cols, s.last_display_width);
                (PreviewState { last_text: text, last_display_width: w, ..s }, Some((true, out)))
            },
            _ => (
                PreviewState { last_text: text, ..s },
                Some((false, preview_prefix(is_final) + seq![' '] + text)),
            ),
        }
    }
}

/// Cutting keeps a prefix of the text: nothing for zero columns, and the whole
/// text when every character fits.
pub proof fn law_truncate_keeps_prefix(s: Seq<char>, max_cols: nat)
    ensures
        exists|k: int| 0 <= k <= s.len() && spec_truncate(s, max_cols) == s.take(k),
        max_cols == 0 ==> spec_truncate(s, max_cols).len() == 0,
{
    if max_cols > 0 {
        lemma_truncated_len_bounds(s, max_cols, 0, 0);
        let k = truncated_len(s, max_cols, 0, 0) as int;
        assert(spec_truncate(s, max_cols) == s.take(k));
    } else {
        assert(spec_truncate(s, max_cols) == s.take(0));
    }
}

proof fn lemma_truncated_len_bounds(s: Seq<char>, max_cols: nat, used: nat, i: nat)
    requires
        i <= s.len(),
    ensures
        i <= truncated_len(s, max_cols, used, i) <= s.len(),
    decreases s.len() - i,
{
    if i < s.len() {
        let w = match char_width(s[i as int]) {
            Some(w) => w as nat,
            None => 0,
        };
        if used + w <= max_cols {
            lemma_truncated_len_bounds(s, max_cols, used + w, i + 1);
        }
    }
}

/// A line is left as it is when the terminal width is unknown or the line
/// fits before the last column; otherwise it is cut to a prefix, ending with
/// `...` when there is room for it; a one-column terminal gets nothing.
pub proof fn law_shorten(line: Seq<char>, cols: Option<usize>)
    ensures
        (cols is None || cols == Some(0usize)) ==> spec_shorten(line, cols) == line,
        cols == Some(1usize) ==> spec_shorten(line, cols).len() == 0,
        (cols matches Some(c) && c >= 2 && str_width(line) <= c - 1) ==> spec_shorten(line, cols)
            == line,
        (cols matches Some(c) && c >= 2 && str_width(line) > c - 1 && c - 1 > str_width("..."@))
            ==> exists|k: int| 0 <= k <= line.len() && spec_shorten(line, cols) == line.take(k)
            + "..."@,
        (cols matches Some(c) && c >= 2 && str_width(line) > c - 1 && c - 1 <= str_width("..."@))
            ==> exists|k: int| 0 <= k <= line.len() && spec_shorten(line, cols) == line.take(k),
{
    if let Some(c) = cols {
        if c >= 2 {
            let target = (c - 1) as nat;
            if target > str_width("..."@) {
                law_truncate_keeps_prefix(line, (target - str_width("..."@)) as nat);
            } else {
                law_truncate_keeps_prefix(line, target);
            }
        }
    }
}

/// A non-blank text is shown unless the preview is off or it repeats the last
/// interim text: a final text is always shown, on its own line (with the
/// `[VOICE FINAL]` prefix) in line mode and as a carriage-return overwrite in
/// single mode, padded with spaces over what is left of a wider previous
/// line; nothing is shown in off mode or for a blank text; and a shown text
/// becomes the last text.
pub proof fn law_what_is_shown(s: PreviewState, text: Seq<char>, is_final: bool, cols: Option<usize>)
    ensures
        ({
            let (next, out) = spec_show(s, text, is_final, cols);
            &&& (s.mode is Off || is_blank(text)) ==> out is None && next == s
            &&& !(s.mode is Off) && !is_blank(text) && is_final ==> out is Some
            &&& !(s.mode is Off) && !is_blank(text) && !is_final ==> (out is None <==> text
                == s.last_text)
            &&& (s.mode is Line && !is_blank(text) && (is_final || text != s.last_text)) ==> out
                == Some((false, (if is_final { "[VOICE FINAL] "@ } else { "[VOICE] "@ }) + text))
            &&& (s.mode is Single && !is_blank(text) && (is_final || text != s.last_text)) ==> (
            out matches Some((overwrite, line)) && overwrite && line.len() > 0 && line[0] == '\r')
            &&& out is Some ==> next.last_text == text && next.mode == s.mode
            &&& (s.mode is Single && !is_blank(text) && (is_final || text != s.last_text)) ==> ({
                let sh = spec_shorten(
                    (if is_final { "[VOICE FINAL] "@ } else { "[VOICE] "@ }) + one_line(text),
                    cols,
                );
                let line = out.unwrap().1;
                let w = str_width(sh) as int;
                &&& line.len() >= 1 + sh.len()
                &&& line.subrange(1, 1 + sh.len() as int) == sh
                &&& forall|i: int| 1 + sh.len() <= i < line.len() ==> line[i] == ' '
                &&& line.len() == 1 + sh.len() + (if w < s.last_display_width {
                    s.last_display_width - w
                } else {
                    0
                })
                &&& next.last_display_width == w
            })
            &&& (s.mode is Line && out is Some) ==> next.last_display_width == s.last_display_width
        }),
{
    reveal_strlit("[VOICE FINAL]");
    reveal_strlit("[VOICE FINAL] ");
    reveal_strlit("[VOICE]");
    reveal_strlit("[VOICE] ");
    assert("[VOICE FINAL]"@ + seq![' '] =~= "[VOICE FINAL] "@);
    assert("[VOICE]"@ + seq![' '] =~= "[VOICE] "@);
    let p = if is_final { "[VOICE FINAL]"@ } else { "[VOICE]"@ };
    assert(preview_prefix(is_final) + seq![' '] + text =~= (if is_final { "[VOICE FINAL] "@ } else {
        "[VOICE] "@
    }) + text);
    assert(preview_prefix(is_final) + seq![' '] + one_line(text) =~= (if is_final {
        "[VOICE FINAL] "@
    } else {
        "[VOICE] "@
    }) + one_line(text));
    if s.mode is Single && !is_blank(text) && (is_final || text != s.last_text) {
        let (o, w) = single_line_output(text, is_final, cols, s.last_display_width);
        let sh = spec_shorten(preview_prefix(is_final) + seq![' '] + one_line(text), cols);
        assert(o.subrange(1, 1 + sh.len() as int) =~= sh);
    }
}

/// A text shown on the single line has its line breaks turned into spaces and
/// every other character kept.
pub proof fn law_one_line(text: Seq<char>)
    ensures
        one_line(text).len() == text.len(),
        forall|i: int| 0 <= i < text.len() ==> #[trigger] one_line(text)[i] != '\r' && one_line(text)[i] != '\n',
        forall|i: int|
            0 <= i < text.len() && text[i] != '\r' && text[i] != '\n' ==> #[trigger] one_line(text)[i]
                == text[i],
{
}

impl PreviewOutput {
    /// `(overwrite, text)` for an output, `None` for nothing.
    pub open spec fn model(self) -> Option<(bool, Seq<char>)> {
        match self {
            PreviewOutput::Nothing => None,
            PreviewOutput::Overwrite(s) => Some((true, s@)),
            PreviewOutput::Line(s) => Some((false, s@)),
        }
    }
}

fn replace_line_breaks(text: &str) -> (res: String)
    ensures
        res@ == one_line(text@),
{
    let chars = chars_of(text);
    let mut out = String::new();
    let mut i: usize = 0;
    while i < chars.len()
        invariant
            i <= chars@.len(),
            chars@ == text@,
            out@ == one_line(text@).take(i as int),
        decreases chars.len() - i,
    {
        let c = chars[i];
        if c == '\r' || c == '\n' {
            string_push(&mut out, ' ');
        } else {
            string_push(&mut out, c);
        }
        i = i + 1;
        assert(out@ =~= one_line(text@).take(i as int));
    }
    assert(one_line(text@).take(i as int) =~= one_line(text@));
    out
}

impl PreviewPrinter {
    pub closed spec fn state(&self) -> PreviewState {
        PreviewState {
            mode: self.mode,
            last_text: self.last_text@,
            last_display_width: self.last_display_width as nat,
        }
    }

    /// A printer in `mode` that has shown nothing yet.
    pub fn new(mode: PreviewMode) -> (res: Self)
        ensures
            res.state() == (PreviewState { mode, last_text: Seq::empty(), last_display_width: 0 }),
    {
        PreviewPrinter { mode, last_text: String::new(), last_display_width: 0 }
    }

    /// Forgets the last text and width.
    pub fn reset(&mut self)
        ensures
            final(self).state() == (PreviewState {
                mode: old(self).state().mode,
                last_text: Seq::empty(),
                last_display_width: 0,
            }),
    {
        self.last_text = String::new();
        self.last_display_width = 0;
    }

    /// What to print for a new recognition text on a terminal of `cols`
    /// columns (`None` when unknown).
    pub fn show(&mut self, text: &str, is_final: bool, cols: Option<usize>) -> (res: PreviewOutput)
        ensures
            (final(self).state(), res.model()) == spec_show(old(self).state(), text@, is_final, cols),
    {
        let off = match self.mode {
            PreviewMode::Off => true,
            _ => false,
        };
        if off || str_is_blank(text) {
            return PreviewOutput::Nothing;
        }
        if !is_final && self.last_text == to_string(text) {
            return PreviewOutput::Nothing;
        }
        let prefix = if is_final {
            "[VOICE FINAL]"
        } else {
            "[VOICE]"
        };
        let ghost old_state = self.state();
        assert(prefix@ == preview_prefix(is_final));
        let res = match self.mode {
            PreviewMode::Single => {
                let mut line = to_string(prefix);
                string_push(&mut line, ' ');
                let cleaned = replace_line_breaks(text);
                string_push_str(&mut line, cleaned.as_str());
                let shortened = shorten_to_terminal_width(line.as_str(), cols);
                let width = display_width_of_str(shortened.as_str());
                let mut out = String::new();
                string_push(&mut out, '\r');
                string_push_str(&mut out, shortened.as_str());
                if width < self.last_display_width {
                    let mut k: usize = 0;
                    let pad = self.last_display_width - width;
                    let ghost base = out@;
                    while k < pad
                        invariant
                            k <= pad,
                            out@ == base + spaces(k as nat),
                        decreases pad - k,
                    {
                        string_push(&mut out, ' ');
                        k = k + 1;
                        assert(out@ =~= base + spaces(k as nat));
                    }
                } else {
                    assert(out@ =~= out@ + Seq::<char>::empty());
                }
                self.last_display_width = width;
                proof {
                    let (o, w2) = single_line_output(text@, is_final, cols, old_state.last_display_width);
                    assert(line@ =~= preview_prefix(is_final) + seq![' '] + one_line(text@));
                    assert(w2 == width);
                    assert(out@ =~= o);
                }
                PreviewOutput::Overwrite(out)
            },
            _ => {
                let mut line = to_string(prefix);
                string_push(&mut line, ' ');
                string_push_str(&mut line, text);
                assert(line@ =~= preview_prefix(is_final) + seq![' '] + text@);
                PreviewOutput::Line(line)
            },
        };
        self.last_text = to_string(text);
        res
    }

    /// Ends the preview of an utterance: `true` when a line break must be
    /// printed to leave the single preview line; the state is reset.
    pub fn finish(&mut self) -> (newline: bool)
        ensures
            newline == (old(self).state().mode is Single && old(self).state().last_display_width > 0),
            final(self).state() == (PreviewState {
                mode: old(self).state().mode,
                last_text: Seq::empty(),
                last_display_width: 0,
            }),
    {
        let single = match self.mode {
            PreviewMode::Single => true,
            _ => false,
        };
        let newline = single && self.last_display_width > 0;
        self.reset();
        newline
    }
}

} // verus!
