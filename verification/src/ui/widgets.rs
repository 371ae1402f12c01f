//! Where the terminal cursor goes in a text input box.
use vstd::prelude::*;

use crate::util::string::chars_of;
use vstd::string::StringSliceAdditionalSpecFns;
use vstd::utf8::{decode_utf8, encode_utf8_decode_utf8, is_char_boundary};

verus! {

/// A rectangle of the terminal: its top left corner and its size.
#[derive(Debug, Clone, Copy, PartialEq, Eq)]
pub struct Area {
    pub x: u16,
    pub y: u16,
    pub width: u16,
    pub height: u16,
}

/// The row and column reached after writing `text` in a box whose lines
/// hold `inner_w` characters: a line break starts a new row, and a row that
/// fills up wraps to the next.
pub open spec fn cursor_rc(text: Seq<char>, inner_w: nat) -> (nat, nat)
    decreases text.len(),
{
    if text.len() == 0 {
        (0, 0)
    } else {
        let (row, col) = cursor_rc(text.drop_last(), inner_w);
        if text.last() == '\n' {
            (row + 1, 0)
        } else if col + 1 >= inner_w {
            (row + 1, 0)
        } else {
            (row, col + 1)
        }
    }
}

/// The column stays inside the line.
proof fn lemma_cursor_col(text: Seq<char>, inner_w: nat)
    ensures
        cursor_rc(text, inner_w).1 == 0 || cursor_rc(text, inner_w).1 < inner_w,
    decreases text.len(),
{
    if text.len() > 0 {
        lemma_cursor_col(text.drop_last(), inner_w);
    }
}

/// Writing more text never moves the cursor to an earlier row.
proof fn lemma_cursor_rows_grow(text: Seq<char>, inner_w: nat, i: int)
    requires
        0 <= i <= text.len(),
    ensures
        cursor_rc(text.take(i), inner_w).0 <= cursor_rc(text, inner_w).0,
    decreases text.len() - i,
{
    if i < text.len() {
        lemma_cursor_rows_grow(text, inner_w, i + 1);
        assert(text.take(i + 1).drop_last() =~= text.take(i));
    } else {
        assert(text.take(i) =~= text);
    }
}

/// The smaller of two numbers.
pub open spec fn min_nat(a: nat, b: nat) -> nat {
    if a <= b {
        a
    } else {
        b
    }
}

/// `a - b`, or 0 when `b` is larger.
pub open spec fn sat_sub(a: nat, b: nat) -> nat {
    if a >= b {
        (a - b) as nat
    } else {
        0
    }
}

/// The text before byte offset `offset` (or the whole text when the
/// offset is past its end).
pub open spec fn text_before(text: &str, offset: nat) -> Seq<char> {
    decode_utf8(text.spec_bytes().take(min_nat(offset, text.spec_bytes().len()) as int))
}

/// The terminal cell of the cursor at byte `offset` of `text`, shown in
/// `area` with a border: inside the border, after the text before the
/// offset, kept within the box.
pub open spec fn cursor_cell(text: &str, offset: nat, area: Area) -> (nat, nat) {
    let inner_w = sat_sub(area.width as nat, 2);
    let (row, col) = cursor_rc(text_before(text, offset), inner_w);
    (
        min_nat((area.x + 1 + col) as nat, (area.x + sat_sub(area.width as nat, 2)) as nat),
        min_nat((area.y + 1 + row) as nat, (area.y + sat_sub(area.height as nat, 2)) as nat),
    )
}

/// The terminal cell for the cursor of a text input at byte `byte_offset`.
pub fn cursor_position(text: &str, byte_offset: usize, area: Area) -> (r: (u16, u16))
    requires
        text.spec_bytes().len() <= usize::MAX,
        is_char_boundary(
            text.spec_bytes(),
            min_nat(byte_offset as nat, text.spec_bytes().len()) as int,
        ),
        area.x + area.width <= u16::MAX,
        area.y + area.height <= u16::MAX,
        area.x < u16::MAX,
        area.y + 1 + cursor_rc(
            text_before(text, byte_offset as nat),
            sat_sub(area.width as nat, 2),
        ).0 <= u16::MAX,
    ensures
        (r.0 as nat, r.1 as nat) == cursor_cell(text, byte_offset as nat, area),
{
    let inner_w: usize = if area.width >= 2 {
        (area.width - 2) as usize
    } else {
        0
    };
    let len = text.len();
    let mid = if byte_offset < len {
        byte_offset
    } else {
        len
    };
    let (before, _) = text.split_at(mid);
    proof {
        encode_utf8_decode_utf8(before@);
        assert(before@ == text_before(text, byte_offset as nat));
    }
    let cs = chars_of(before);
    let ghost all = cs@;
    let ghost final_row = cursor_rc(all, inner_w as nat).0;
    let mut row: u16 = 0;
    let mut col: usize = 0;
    let mut i: usize = 0;
    while i < cs.len()
        invariant
            cs@ == all,
            final_row == cursor_rc(all, inner_w as nat).0,
            area.y + 1 + final_row <= u16::MAX,
            0 <= i <= cs@.len(),
            (row as nat, col as nat) == cursor_rc(all.take(i as int), inner_w as nat),
            col == 0 || col < inner_w,
        decreases cs@.len() - i,
    {
        proof {
            assert(all.take(i + 1).drop_last() =~= all.take(i as int));
            lemma_cursor_rows_grow(all, inner_w as nat, i + 1);
            lemma_cursor_col(all.take(i + 1), inner_w as nat);
        }
        if cs[i] == '\n' {
            row = row + 1;
            col = 0;
        } else {
            col = col + 1;
            if col >= inner_w {
                row = row + 1;
                col = 0;
            }
        }
        i = i + 1;
    }
    proof {
        assert(all.take(all.len() as int) =~= all);
    }
    let right = if area.width >= 2 {
        area.x + (area.width - 2)
    } else {
        area.x
    };
    let bottom = if area.height >= 2 {
        area.y + (area.height - 2)
    } else {
        area.y
    };
    let col16 = col as u16;
    let cx = if area.x + 1 + col16 < right {
        area.x + 1 + col16
    } else {
        right
    };
    let cy = if area.y + 1 + row < bottom {
        area.y + 1 + row
    } else {
        bottom
    };
    (cx, cy)
}

/// The cursor never leaves the inside of its box (nor its top left inner
/// cell when the box has no inside).
pub proof fn lemma_cursor_inside(text: &str, offset: nat, area: Area)
    ensures
        cursor_cell(text, offset, area).0 <= area.x + sat_sub(area.width as nat, 2),
        cursor_cell(text, offset, area).1 <= area.y + sat_sub(area.height as nat, 2),
{
}

} // verus!
