//! Terminal styling: ANSI SGR sequences, or plain text when color is off.

use vstd::prelude::*;

verus! {

/// `text` wrapped in the SGR sequence `code` and a reset when `color` is on, else `text`.
pub open spec fn paint_spec(color: bool, code: Seq<char>, text: Seq<char>) -> Seq<char> {
    if color {
        seq!['\u{1b}', '['] + code + seq!['m'] + text + seq!['\u{1b}', '[', '0', 'm']
    } else {
        text
    }
}

/// Appends `text` styled with the SGR `code` (see `paint_spec`).
pub fn push_painted(out: &mut String, color: bool, code: &str, text: &str)
    ensures
        final(out)@ == old(out)@ + paint_spec(color, code@, text@),
{
    if color {
        out.push('\u{1b}');
        out.push('[');
        out.append(code);
        out.push('m');
        out.append(text);
        out.push('\u{1b}');
        out.push('[');
        out.push('0');
        out.push('m');
        assert(out@ =~= old(out)@ + paint_spec(color, code@, text@));
    } else {
        out.append(text);
    }
}

/// `text` styled with the SGR `code`.
pub fn ansi(color: bool, code: &str, text: &str) -> (r: String)
    ensures
        r@ == paint_spec(color, code@, text@),
{
    let mut r = String::new();
    push_painted(&mut r, color, code, text);
    assert(r@ =~= paint_spec(color, code@, text@));
    r
}

/// Bold text.
pub fn bold(color: bool, text: &str) -> (r: String)
    ensures
        r@ == paint_spec(color, "1"@, text@),
{
    ansi(color, "1", text)
}

/// Dim text.
pub fn dim(color: bool, text: &str) -> (r: String)
    ensures
        r@ == paint_spec(color, "2"@, text@),
{
    ansi(color, "2", text)
}

} // verus!
