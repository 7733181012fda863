//! Three-row digits, for the one number an operator reads from across the
//! room.

use crate::text::push_text;
use vstd::prelude::*;
use vstd::string::*;

verus! {

/// Columns a glyph takes, with its trailing gap.
pub const GLYPH_WIDTH: usize = 4;

/// Rows a number takes.
pub const HEIGHT: usize = 3;

/// One row of a glyph. What has no glyph is blank, as wide as any.
pub open spec fn glyph_row(c: char, row: int) -> Seq<char> {
    if c == '0' {
        if row == 0 {
            "╭─╮"@
        } else if row == 1 {
            "│ │"@
        } else {
            "╰─╯"@
        }
    } else if c == '1' {
        if row == 0 {
            "  ╷"@
        } else if row == 1 {
            "  │"@
        } else {
            "  ╵"@
        }
    } else if c == '2' {
        if row == 0 {
            "╭─╮"@
        } else if row == 1 {
            "╭─╯"@
        } else {
            "╰─╴"@
        }
    } else if c == '3' {
        if row == 0 {
            "╭─╮"@
        } else if row == 1 {
            " ─┤"@
        } else {
            "╰─╯"@
        }
    } else if c == '4' {
        if row == 0 {
            "╷ ╷"@
        } else if row == 1 {
            "╰─┤"@
        } else {
            "  ╵"@
        }
    } else if c == '5' {
        if row == 0 {
            "╭─╴"@
        } else if row == 1 {
            "╰─╮"@
        } else {
            "╰─╯"@
        }
    } else if c == '6' {
        if row == 0 {
            "╭─╴"@
        } else if row == 1 {
            "├─╮"@
        } else {
            "╰─╯"@
        }
    } else if c == '7' {
        if row == 0 {
            "╶─╮"@
        } else if row == 1 {
            "  │"@
        } else {
            "  ╵"@
        }
    } else if c == '8' {
        if row == 0 {
            "╭─╮"@
        } else if row == 1 {
            "├─┤"@
        } else {
            "╰─╯"@
        }
    } else if c == '9' {
        if row == 0 {
            "╭─╮"@
        } else if row == 1 {
            "╰─┤"@
        } else {
            "  ╵"@
        }
    } else if c == '.' {
        if row == 2 {
            " ▪ "@
        } else {
            "   "@
        }
    } else if c == '-' || c == '—' {
        if row == 1 {
            "╶─╴"@
        } else {
            "   "@
        }
    } else {
        "   "@
    }
}

/// One row of a text in large glyphs: each glyph's row and a gap.
pub open spec fn text_row(text: Seq<char>, row: int) -> Seq<char>
    decreases text.len(),
{
    if text.len() == 0 {
        seq![]
    } else {
        (text_row(text.drop_last(), row) + glyph_row(text.last(), row)).push(' ')
    }
}

/// The three rows of a glyph.
pub fn glyph(c: char) -> (r: [&'static str; 3])
    ensures
        r@[0]@ == glyph_row(c, 0),
        r@[1]@ == glyph_row(c, 1),
        r@[2]@ == glyph_row(c, 2),
{
    match c {
        '0' => ["╭─╮", "│ │", "╰─╯"],
        '1' => ["  ╷", "  │", "  ╵"],
        '2' => ["╭─╮", "╭─╯", "╰─╴"],
        '3' => ["╭─╮", " ─┤", "╰─╯"],
        '4' => ["╷ ╷", "╰─┤", "  ╵"],
        '5' => ["╭─╴", "╰─╮", "╰─╯"],
        '6' => ["╭─╴", "├─╮", "╰─╯"],
        '7' => ["╶─╮", "  │", "  ╵"],
        '8' => ["╭─╮", "├─┤", "╰─╯"],
        '9' => ["╭─╮", "╰─┤", "  ╵"],
        '.' => ["   ", "   ", " ▪ "],
        '-' | '—' => ["   ", "╶─╴", "   "],
        _ => ["   ", "   ", "   "],
    }
}

/// A text in large glyphs, row by row.
pub fn render(text: &str) -> (r: [String; 3])
    ensures
        r@[0]@ == text_row(text@, 0),
        r@[1]@ == text_row(text@, 1),
        r@[2]@ == text_row(text@, 2),
{
    let mut top = String::new();
    let mut middle = String::new();
    let mut bottom = String::new();
    let len: usize = text.unicode_len();
    let mut i: usize = 0;
    while i < len
        invariant
            i <= len,
            len == text@.len(),
            top@ == text_row(text@.take(i as int), 0),
            middle@ == text_row(text@.take(i as int), 1),
            bottom@ == text_row(text@.take(i as int), 2),
        decreases len - i,
    {
        assert(text@.take(i + 1).drop_last() =~= text@.take(i as int));
        let g = glyph(text.get_char(i));
        push_text(&mut top, g[0]);
        top.push(' ');
        push_text(&mut middle, g[1]);
        middle.push(' ');
        push_text(&mut bottom, g[2]);
        bottom.push(' ');
        i += 1;
    }
    assert(text@.take(len as int) =~= text@);
    [top, middle, bottom]
}

/// How wide a text will be in large glyphs.
pub fn width(text: &str) -> (r: usize)
    requires
        text@.len() * GLYPH_WIDTH <= usize::MAX,
    ensures
        r == text@.len() * GLYPH_WIDTH,
{
    text.unicode_len() * GLYPH_WIDTH
}

/// Every row of every glyph is three columns wide.
pub proof fn a_glyph_is_three_columns_wide(c: char, row: int)
    ensures
        glyph_row(c, row).len() == 3,
{
    reveal_strlit("╭─╮");
    reveal_strlit("│ │");
    reveal_strlit("╰─╯");
    reveal_strlit("  ╷");
    reveal_strlit("  │");
    reveal_strlit("  ╵");
    reveal_strlit("╭─╯");
    reveal_strlit("╰─╴");
    reveal_strlit(" ─┤");
    reveal_strlit("╷ ╷");
    reveal_strlit("╰─┤");
    reveal_strlit("╭─╴");
    reveal_strlit("╰─╮");
    reveal_strlit("├─╮");
    reveal_strlit("╶─╮");
    reveal_strlit("├─┤");
    reveal_strlit(" ▪ ");
    reveal_strlit("   ");
    reveal_strlit("╶─╴");
}

/// The three rows of a text are equally wide, and as wide as [`width`] says.
pub proof fn rows_are_equally_wide(text: Seq<char>, row: int)
    ensures
        text_row(text, row).len() == text.len() * GLYPH_WIDTH,
    decreases text.len(),
{
    if text.len() > 0 {
        rows_are_equally_wide(text.drop_last(), row);
        a_glyph_is_three_columns_wide(text.last(), row);
    }
}

/// Whether `c` is a decimal digit.
pub open spec fn is_digit(c: char) -> bool {
    c == '0' || c == '1' || c == '2' || c == '3' || c == '4' || c == '5' || c == '6' || c == '7'
        || c == '8' || c == '9'
}

/// No two digits look alike.
pub proof fn digits_are_told_apart(a: char, b: char)
    requires
        is_digit(a),
        is_digit(b),
        a != b,
    ensures
        glyph_row(a, 0) != glyph_row(b, 0) || glyph_row(a, 1) != glyph_row(b, 1) || glyph_row(a, 2)
            != glyph_row(b, 2),
{
    reveal_strlit("╭─╮");
    reveal_strlit("│ │");
    reveal_strlit("╰─╯");
    reveal_strlit("  ╷");
    reveal_strlit("  │");
    reveal_strlit("  ╵");
    reveal_strlit("╭─╯");
    reveal_strlit("╰─╴");
    reveal_strlit(" ─┤");
    reveal_strlit("╷ ╷");
    reveal_strlit("╰─┤");
    reveal_strlit("╭─╴");
    reveal_strlit("╰─╮");
    reveal_strlit("├─╮");
    reveal_strlit("╶─╮");
    reveal_strlit("├─┤");
    let shape = |c: char|
        (
            glyph_row(c, 0)[0],
            glyph_row(c, 0)[2],
            glyph_row(c, 1)[0],
            glyph_row(c, 1)[2],
            glyph_row(c, 2)[0],
            glyph_row(c, 2)[2],
            glyph_row(c, 1)[1],
            glyph_row(c, 2)[1],
        );
    assert(shape(a) != shape(b));
}

/// Every character of a text has its own place: the glyph of the `i`th stands
/// four columns further on than that of the one before it, with a gap behind.
pub proof fn every_character_has_its_place(text: Seq<char>, row: int, i: int)
    requires
        0 <= i < text.len(),
    ensures
        text_row(text, row).len() == 4 * text.len(),
        text_row(text, row).subrange(4 * i, 4 * i + 3) == glyph_row(text[i], row),
        text_row(text, row)[4 * i + 3] == ' ',
    decreases text.len(),
{
    rows_are_equally_wide(text, row);
    rows_are_equally_wide(text.drop_last(), row);
    a_glyph_is_three_columns_wide(text.last(), row);
    let whole = text_row(text, row);
    let before = text_row(text.drop_last(), row);
    if i < text.len() - 1 {
        every_character_has_its_place(text.drop_last(), row, i);
        assert(whole.subrange(4 * i, 4 * i + 3) =~= before.subrange(4 * i, 4 * i + 3));
        assert(whole[4 * i + 3] == before[4 * i + 3]);
    } else {
        assert(whole.subrange(4 * i, 4 * i + 3) =~= glyph_row(text[i], row));
    }
}

/// A digit has the strokes a digit has: a bar at the top, in the middle and at
/// the bottom, a stroke on the right above and below the middle, and one on the
/// left below it, each exactly where the figure it stands for has one.
pub proof fn a_digit_has_its_strokes(c: char)
    requires
        '0' as int <= c as int <= '9' as int,
    ensures
        ({
            let d = c as int - '0' as int;
            let top = glyph_row(c, 0);
            let middle = glyph_row(c, 1);
            let bottom = glyph_row(c, 2);
            &&& top[1] == '─' <==> d != 1 && d != 4
            &&& middle[1] == '─' <==> d != 0 && d != 1 && d != 7
            &&& bottom[1] == '─' <==> d == 0 || d == 2 || d == 3 || d == 5 || d == 6 || d == 8
            &&& (top[2] == '╮' || top[2] == '╷') <==> d != 5 && d != 6
            &&& (bottom[2] == '╯' || bottom[2] == '╵') <==> d != 2
            &&& (middle[0] == '│' || middle[0] == '╭' || middle[0] == '├') <==> d == 0 || d == 2 || d
                == 6 || d == 8
        }),
{
    reveal_strlit("╭─╮");
    reveal_strlit("│ │");
    reveal_strlit("╰─╯");
    reveal_strlit("  ╷");
    reveal_strlit("  │");
    reveal_strlit("  ╵");
    reveal_strlit("╭─╯");
    reveal_strlit("╰─╴");
    reveal_strlit(" ─┤");
    reveal_strlit("╷ ╷");
    reveal_strlit("╰─┤");
    reveal_strlit("╭─╴");
    reveal_strlit("╰─╮");
    reveal_strlit("├─╮");
    reveal_strlit("╶─╮");
    reveal_strlit("├─┤");
    reveal_strlit(" ▪ ");
    reveal_strlit("   ");
    reveal_strlit("╶─╴");
}

/// A dot stands on the line, a dash in the middle, and anything else that is no
/// digit is blank.
pub proof fn a_dot_stands_on_the_line(c: char, row: int, i: int)
    requires
        0 <= row < 3,
        0 <= i < 3,
        (c as int) < ('0' as int) || (c as int) > ('9' as int),
    ensures
        glyph_row(c, row)[i] == ' ' <==> !(c == '.' && row == 2 && i == 1 || (c == '-' || c == '—')
            && row == 1),
{
    reveal_strlit("╭─╮");
    reveal_strlit("│ │");
    reveal_strlit("╰─╯");
    reveal_strlit("  ╷");
    reveal_strlit("  │");
    reveal_strlit("  ╵");
    reveal_strlit("╭─╯");
    reveal_strlit("╰─╴");
    reveal_strlit(" ─┤");
    reveal_strlit("╷ ╷");
    reveal_strlit("╰─┤");
    reveal_strlit("╭─╴");
    reveal_strlit("╰─╮");
    reveal_strlit("├─╮");
    reveal_strlit("╶─╮");
    reveal_strlit("├─┤");
    reveal_strlit(" ▪ ");
    reveal_strlit("   ");
    reveal_strlit("╶─╴");
}

/// The digits are the characters from zero to nine.
pub proof fn the_digits_are_zero_to_nine(c: char)
    ensures
        is_digit(c) <==> '0' as int <= c as int <= '9' as int,
{
}

} // verus!
