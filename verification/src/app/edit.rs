//! Editing a text input: the cursor is a byte offset into the text,
//! always on a character boundary.
use vstd::prelude::*;

use crate::util::string::{chars_of, push_all, string_from_chars};
use vstd::string::StringSliceAdditionalSpecFns;
use vstd::utf8::{encode_utf8, encode_utf8_decode_utf8, encode_utf8_valid_utf8, is_char_boundary};

verus! {

/// UTF-8 encoding distributes over concatenation.
pub proof fn lemma_encode_concat(x: Seq<char>, y: Seq<char>)
    ensures
        encode_utf8(x + y) == encode_utf8(x) + encode_utf8(y),
    decreases x.len(),
{
    if x.len() == 0 {
        assert(x + y =~= y);
        assert(encode_utf8(x) =~= Seq::<u8>::empty());
        assert(encode_utf8(x) + encode_utf8(y) =~= encode_utf8(y));
    } else {
        assert((x + y)[0] == x[0]);
        assert((x + y).drop_first() =~= x.drop_first() + y);
        lemma_encode_concat(x.drop_first(), y);
        assert(encode_utf8(x + y) =~= encode_utf8(x) + encode_utf8(y));
    }
}

proof fn lemma_encode_nonempty(x: Seq<char>)
    requires
        x.len() > 0,
    ensures
        encode_utf8(x).len() >= 1,
{
}

/// A longer prefix of a text takes more bytes.
proof fn lemma_prefix_bytes_grow(s: Seq<char>, j: int, k: int)
    requires
        0 <= j < k <= s.len(),
    ensures
        encode_utf8(s.take(j)).len() < encode_utf8(s.take(k)).len(),
{
    assert(s.take(k) =~= s.take(j) + s.subrange(j, k));
    lemma_encode_concat(s.take(j), s.subrange(j, k));
    lemma_encode_nonempty(s.subrange(j, k));
}

/// The characters before and after the byte offset `i` of the UTF-8
/// encoding of `s`.
pub open spec fn split_at_byte(s: Seq<char>, i: int) -> (Seq<char>, Seq<char>) {
    let k = choose|k: int| 0 <= k <= s.len() && encode_utf8(s.take(k)).len() == i;
    (s.take(k), s.skip(k))
}

/// Splitting a text after the bytes of `a` gives `a` and the rest.
proof fn lemma_split_unique(s: Seq<char>, a: Seq<char>, b: Seq<char>)
    requires
        s == a + b,
    ensures
        split_at_byte(s, encode_utf8(a).len() as int) == (a, b),
{
    let i = encode_utf8(a).len() as int;
    let k0 = a.len() as int;
    assert(s.take(k0) =~= a);
    assert(s.skip(k0) =~= b);
    assert(0 <= k0 <= s.len() && encode_utf8(s.take(k0)).len() == i);
    let k = choose|k: int| 0 <= k <= s.len() && encode_utf8(s.take(k)).len() == i;
    if k < k0 {
        lemma_prefix_bytes_grow(s, k, k0);
    } else if k > k0 {
        lemma_prefix_bytes_grow(s, k0, k);
    }
}

/// A character boundary lies within the text.
proof fn lemma_boundary_in_range(s: Seq<char>, i: int)
    requires
        is_char_boundary(encode_utf8(s), i),
    ensures
        0 <= i <= encode_utf8(s).len(),
{
    encode_utf8_valid_utf8(s);
}

/// The two halves that `split_at` gives at a character boundary are the
/// characters before and after that offset.
proof fn lemma_split_views(s: &str, a: &str, b: &str, c: usize)
    requires
        is_char_boundary(encode_utf8(s@), c as int),
        a.spec_bytes() =~= s.spec_bytes().subrange(0, c as int),
        b.spec_bytes() =~= s.spec_bytes().subrange(c as int, s.spec_bytes().len() as int),
    ensures
        s@ == a@ + b@,
        split_at_byte(s@, c as int) == (a@, b@),
        encode_utf8(a@).len() == c,
{
    lemma_boundary_in_range(s@, c as int);
    lemma_encode_concat(a@, b@);
    assert(encode_utf8(a@ + b@) =~= encode_utf8(s@));
    encode_utf8_decode_utf8(a@ + b@);
    encode_utf8_decode_utf8(s@);
    lemma_split_unique(s@, a@, b@);
}

/// Inserts `text` into `input` at the byte offset `cursor` and moves the
/// cursor past it, as pasting into the query editor does.
pub fn insert_at_cursor(input: &mut String, cursor: &mut usize, text: &str)
    requires
        is_char_boundary(encode_utf8(old(input)@), *old(cursor) as int),
        *old(cursor) + encode_utf8(text@).len() <= usize::MAX,
    ensures
        encode_utf8(final(input)@) == encode_utf8(old(input)@).take(*old(cursor) as int)
            + encode_utf8(text@) + encode_utf8(old(input)@).skip(*old(cursor) as int),
        *final(cursor) == *old(cursor) + encode_utf8(text@).len(),
{
    let c = *cursor;
    let mut r = String::new();
    {
        let s = input.as_str();
        let (a, b) = s.split_at(c);
        push_all(&mut r, a);
        push_all(&mut r, text);
        push_all(&mut r, b);
        proof {
            lemma_encode_concat(a@ + text@, b@);
            lemma_encode_concat(a@, text@);
            assert(encode_utf8(old(input)@).take(c as int) =~= a.spec_bytes());
            assert(encode_utf8(old(input)@).skip(c as int) =~= b.spec_bytes());
        }
    }
    let n = text.len();
    *input = r;
    *cursor = c + n;
}

/// Deletes the character before the cursor, if there is one, and moves the
/// cursor back over it.
pub fn backspace(input: &mut String, cursor: &mut usize)
    requires
        is_char_boundary(encode_utf8(old(input)@), *old(cursor) as int),
    ensures
        ({
            let (a, b) = split_at_byte(old(input)@, *old(cursor) as int);
            if a.len() > 0 {
                &&& final(input)@ == a.drop_last() + b
                &&& *final(cursor) == encode_utf8(a.drop_last()).len()
            } else {
                &&& final(input)@ == old(input)@
                &&& *final(cursor) == *old(cursor)
            }
        }),
{
    let c = *cursor;
    let mut r = String::new();
    let mut new_cursor: usize = c;
    {
        let s = input.as_str();
        let (a, b) = s.split_at(c);
        proof {
            lemma_split_views(s, a, b, c);
        }
        let ac = chars_of(a);
        if ac.len() == 0 {
            return;
        }
        let n = ac.len() - 1;
        r = string_from_chars(&ac, 0, n);
        proof {
            assert(r@ =~= a@.drop_last());
            assert(a@.take(n as int) =~= a@.drop_last());
            assert(a@.take(a@.len() as int) =~= a@);
            lemma_prefix_bytes_grow(a@, n as int, a@.len() as int);
        }
        new_cursor = r.as_str().len();
        push_all(&mut r, b);
    }
    *input = r;
    *cursor = new_cursor;
}

/// Moves the cursor back over the character before it, if there is one.
pub fn cursor_left(input: &str, cursor: &mut usize)
    requires
        is_char_boundary(encode_utf8(input@), *old(cursor) as int),
    ensures
        ({
            let a = split_at_byte(input@, *old(cursor) as int).0;
            *final(cursor) == if a.len() > 0 {
                encode_utf8(a.drop_last()).len()
            } else {
                *old(cursor) as nat
            }
        }),
{
    let c = *cursor;
    let (a, b) = input.split_at(c);
    proof {
        lemma_split_views(input, a, b, c);
    }
    let ac = chars_of(a);
    if ac.len() == 0 {
        return;
    }
    let n = ac.len() - 1;
    let p = string_from_chars(&ac, 0, n);
    proof {
        assert(p@ =~= a@.drop_last());
        assert(a@.take(n as int) =~= a@.drop_last());
        assert(a@.take(a@.len() as int) =~= a@);
        lemma_prefix_bytes_grow(a@, n as int, a@.len() as int);
    }
    *cursor = p.as_str().len();
}

/// Moves the cursor forward over the character after it, if there is one.
pub fn cursor_right(input: &str, cursor: &mut usize)
    requires
        is_char_boundary(encode_utf8(input@), *old(cursor) as int),
        encode_utf8(input@).len() <= usize::MAX,
    ensures
        ({
            let (a, b) = split_at_byte(input@, *old(cursor) as int);
            *final(cursor) == if b.len() > 0 {
                encode_utf8(a.push(b[0])).len()
            } else {
                *old(cursor) as nat
            }
        }),
{
    let c = *cursor;
    let (a, b) = input.split_at(c);
    proof {
        lemma_split_views(input, a, b, c);
    }
    let bc = chars_of(b);
    if bc.len() == 0 {
        return;
    }
    let first = string_from_chars(&bc, 0, 1);
    proof {
        assert(first@ =~= seq![b@[0]]);
        assert(a@.push(b@[0]) =~= a@ + first@);
        lemma_encode_concat(a@, first@);
        assert(b@ =~= first@ + b@.skip(1));
        lemma_encode_concat(first@, b@.skip(1));
        lemma_encode_concat(a@, b@);
    }
    *cursor = c + first.as_str().len();
}

} // verus!
