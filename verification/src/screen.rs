//! The texts of the lines that frame the buffer on the screen: the welcome
//! line of an empty editor and the status bar.

use vstd::prelude::*;
use crate::text::{append_chars, chars_of, decimal, push_decimal, string_of};

verus! {

/// The file name is shown in the status bar up to this many characters.
pub const NAME_WIDTH: usize = 20;

/// `n` blanks.
pub open spec fn blanks(n: int) -> Seq<char> {
    Seq::new(
        if n > 0 {
            n as nat
        } else {
            0
        },
        |i: int| ' ',
    )
}

/// The first `width` characters of `s`, or all of `s` if it has no more.
pub open spec fn truncated(s: Seq<char>, width: usize) -> Seq<char> {
    if width < s.len() {
        s.take(width as int)
    } else {
        s
    }
}

/// The welcome line on a screen `width` cells wide: a tilde at the left
/// edge, and the name of the editor with its version in the middle of the
/// line, as far as it fits.
pub open spec fn welcome_text(version: Seq<char>, width: usize) -> Seq<char> {
    let message = "Revise | v"@ + version;
    let padding = if width > message.len() {
        (width - message.len()) / 2
    } else {
        0
    };
    truncated(seq!['~'] + blanks(padding - 1) + message, width)
}

/// The name of the file as the status bar shows it.
pub open spec fn shown_name(filename: Option<Seq<char>>) -> Seq<char> {
    match filename {
        Some(name) => truncated(name, NAME_WIDTH),
        None => "[No Name]"@,
    }
}

/// The left part of the status bar: the file, the number of its lines,
/// and whether it has changed.
pub open spec fn status_left(filename: Option<Seq<char>>, lines: usize, changed: bool) -> Seq<char> {
    shown_name(filename) + " - "@ + decimal(lines as nat) + " lines"@ + if changed {
        " (changed)"@
    } else {
        Seq::empty()
    }
}

/// The right part of the status bar: the type of the file, and the line
/// of the cursor among the lines of the file.
pub open spec fn status_right(file_type: Seq<char>, line: usize, lines: usize) -> Seq<char> {
    file_type + " | "@ + decimal(line as nat) + "/"@ + decimal(lines as nat)
}

/// The status bar on a screen `width` cells wide: the left part at the
/// left edge and the right part at the right edge, as far as they fit.
pub open spec fn status_bar_text(
    filename: Option<Seq<char>>,
    lines: usize,
    changed: bool,
    file_type: Seq<char>,
    line: usize,
    width: usize,
) -> Seq<char> {
    let left = status_left(filename, lines, changed);
    let right = status_right(file_type, line, lines);
    truncated(left + blanks(width - left.len() - right.len()) + right, width)
}

fn push_blanks(out: &mut Vec<char>, n: usize)
    ensures
        final(out)@ == old(out)@ + blanks(n as int),
{
    let mut k: usize = 0;
    while k < n
        invariant
            k <= n,
            out@ == old(out)@ + blanks(k as int),
        decreases n - k,
    {
        out.push(' ');
        k += 1;
        assert(old(out)@ + blanks(k as int) =~= (old(out)@ + blanks(k - 1)).push(' '));
    }
}

fn push_text(out: &mut Vec<char>, text: &str)
    ensures
        final(out)@ == old(out)@ + text@,
{
    let chars = chars_of(text);
    append_chars(out, &chars);
}

fn cut(out: &mut Vec<char>, width: usize)
    ensures
        final(out)@ == truncated(old(out)@, width),
{
    if width < out.len() {
        out.truncate(width);
    }
}

/// The welcome line for the given version of the editor.
pub fn welcome_line(version: &str, width: usize) -> (line: String)
    ensures
        line@ == welcome_text(version@, width),
{
    let mut message = chars_of("Revise | v");
    push_text(&mut message, version);
    let padding: usize = width.saturating_sub(message.len()) / 2;
    let mut out: Vec<char> = Vec::new();
    out.push('~');
    assert(out@ =~= seq!['~']);
    push_blanks(&mut out, padding.saturating_sub(1));
    append_chars(&mut out, &message);
    cut(&mut out, width);
    string_of(&out)
}

/// The status bar for a document with the given file name, number of
/// lines, change mark and file type, with the cursor in line `line`.
pub fn status_bar(
    filename: Option<&String>,
    lines: usize,
    changed: bool,
    file_type: &str,
    line: usize,
    width: usize,
) -> (bar: String)
    ensures
        bar@ == status_bar_text(
            match filename {
                Some(name) => Some(name@),
                None => None,
            },
            lines,
            changed,
            file_type@,
            line,
            width,
        ),
{
    let mut left: Vec<char> = match filename {
        Some(name) => {
            let mut shown = chars_of(name.as_str());
            cut(&mut shown, NAME_WIDTH);
            shown
        },
        None => chars_of("[No Name]"),
    };
    push_text(&mut left, " - ");
    push_decimal(&mut left, lines);
    push_text(&mut left, " lines");
    if changed {
        push_text(&mut left, " (changed)");
    }
    assert(left@ =~= status_left(
        match filename {
            Some(name) => Some(name@),
            None => None,
        },
        lines,
        changed,
    ));
    let mut right = chars_of(file_type);
    push_text(&mut right, " | ");
    push_decimal(&mut right, line);
    push_text(&mut right, "/");
    push_decimal(&mut right, lines);
    let gap: usize = width.saturating_sub(left.len()).saturating_sub(right.len());
    let mut out = left;
    push_blanks(&mut out, gap);
    append_chars(&mut out, &right);
    cut(&mut out, width);
    string_of(&out)
}

} // verus!
