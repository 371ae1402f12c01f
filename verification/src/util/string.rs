//! Text helpers on characters: shortening, collapsing to one line, padding,
//! joining, and the comparisons and copies that the rest of the crate uses.
use vstd::prelude::*;

verus! {

/// `String::push` (std): claimed to append `ch` at the end of `s`, as its
/// documentation says.
pub assume_specification[ String::push ](s: &mut String, ch: char)
    ensures
        final(s)@ == old(s)@.push(ch),
;

/// The ellipsis that marks a shortened text.
pub const ELLIPSIS: char = '\u{2026}';

/// The characters of `s`, in order.
pub fn chars_of(s: &str) -> (v: Vec<char>)
    ensures
        v@ == s@,
{
    let mut v: Vec<char> = Vec::new();
    for c in it: s.chars()
        invariant
            v@ == it.seq().take(it.index() as int),
    {
        v.push(c);
    }
    v
}

/// A `String` holding the characters `chars[from..to]`.
pub fn string_from_chars(chars: &Vec<char>, from: usize, to: usize) -> (r: String)
    requires
        from <= to <= chars@.len(),
    ensures
        r@ == chars@.subrange(from as int, to as int),
{
    let mut r = String::new();
    let mut i = from;
    while i < to
        invariant
            from <= i <= to <= chars@.len(),
            r@ == chars@.subrange(from as int, i as int),
        decreases to - i,
    {
        r.push(chars[i]);
        i = i + 1;
    }
    r
}

/// Appends the characters of `t` to `s`.
pub fn push_all(s: &mut String, t: &str)
    ensures
        final(s)@ == old(s)@ + t@,
{
    let cs = chars_of(t);
    let mut i: usize = 0;
    while i < cs.len()
        invariant
            0 <= i <= cs@.len(),
            cs@ == t@,
            s@ == old(s)@ + cs@.take(i as int),
        decreases cs@.len() - i,
    {
        s.push(cs[i]);
        i = i + 1;
    }
    assert(cs@.take(cs@.len() as int) =~= cs@);
}

/// `s` with the characters of `t` appended, as a new string.
pub fn concat_strs(s: &str, t: &str) -> (r: String)
    ensures
        r@ == s@ + t@,
{
    let mut r = String::new();
    push_all(&mut r, s);
    push_all(&mut r, t);
    assert(r@ =~= s@ + t@);
    r
}

/// Whether `a` and `b` hold the same characters.
pub fn str_eq(a: &str, b: &str) -> (r: bool)
    ensures
        r == (a@ == b@),
{
    let x = chars_of(a);
    let y = chars_of(b);
    if x.len() != y.len() {
        return false;
    }
    let mut i: usize = 0;
    while i < x.len()
        invariant
            x@ == a@,
            y@ == b@,
            x@.len() == y@.len(),
            0 <= i <= x@.len(),
            forall|k: int| 0 <= k < i ==> x@[k] == y@[k],
        decreases x@.len() - i,
    {
        if x[i] != y[i] {
            return false;
        }
        i = i + 1;
    }
    assert(x@ =~= y@);
    true
}

/// Whether `prefix` is a prefix of `s`.
pub open spec fn has_prefix(s: Seq<char>, prefix: Seq<char>) -> bool {
    prefix.len() <= s.len() && s.take(prefix.len() as int) == prefix
}

/// Whether `suffix` ends `s`.
pub open spec fn has_suffix(s: Seq<char>, suffix: Seq<char>) -> bool {
    suffix.len() <= s.len() && s.skip(s.len() - suffix.len()) == suffix
}

/// `s` without its first `prefix.len()` characters when `prefix` starts it.
pub fn strip_prefix(s: &str, prefix: &str) -> (r: Option<String>)
    ensures
        has_prefix(s@, prefix@) ==> (r matches Some(t) && t@ == s@.skip(prefix@.len() as int)),
        !has_prefix(s@, prefix@) ==> r is None,
{
    let x = chars_of(s);
    let p = chars_of(prefix);
    if p.len() > x.len() {
        return None;
    }
    let mut i: usize = 0;
    while i < p.len()
        invariant
            x@ == s@,
            p@ == prefix@,
            p@.len() <= x@.len(),
            0 <= i <= p@.len(),
            forall|k: int| 0 <= k < i ==> x@[k] == p@[k],
        decreases p@.len() - i,
    {
        if x[i] != p[i] {
            assert(x@.take(p@.len() as int)[i as int] != p@[i as int]);
            return None;
        }
        i = i + 1;
    }
    assert(x@.take(p@.len() as int) =~= p@);
    let rest = string_from_chars(&x, p.len(), x.len());
    assert(rest@ =~= s@.skip(prefix@.len() as int));
    Some(rest)
}


// ---------------------------------------------------------------------------
// Shortening to a width
// ---------------------------------------------------------------------------

/// What `truncate(s, max)` gives: `s` itself when it has at most `max`
/// characters, else its first `max - 1` characters (none when `max` is 0)
/// followed by an ellipsis.
pub open spec fn truncated(s: Seq<char>, max: nat) -> Seq<char> {
    if s.len() > max {
        s.take(if max == 0 { 0int } else { max - 1 }).push(ELLIPSIS)
    } else {
        s
    }
}

/// Shortens `s` to at most `max` characters (at least one when `max` is 0),
/// marking a cut with an ellipsis.
pub fn truncate(s: String, max: usize) -> (r: String)
    ensures
        r@ == truncated(s@, max as nat),
{
    let chars = chars_of(s.as_str());
    if chars.len() > max {
        let keep: usize = if max == 0 { 0 } else { max - 1 };
        let mut t = string_from_chars(&chars, 0, keep);
        t.push(ELLIPSIS);
        assert(chars@.subrange(0, keep as int) =~= s@.take(keep as int));
        t
    } else {
        s
    }
}

/// Shortening twice to the same width gives what shortening once gives.
pub proof fn lemma_truncate_idempotent(s: Seq<char>, max: nat)
    ensures
        truncated(truncated(s, max), max) == truncated(s, max),
{
}

/// A shortened text is never longer than the width, but for the lone
/// ellipsis that stands for a cut text at width 0.
pub proof fn lemma_truncate_fits(s: Seq<char>, max: nat)
    ensures
        truncated(s, max).len() <= if max == 0 { if s.len() == 0 { 0nat } else { 1nat } } else { max },
        truncated(s, max).len() <= s.len(),
{
}

// ---------------------------------------------------------------------------
// Collapsing to one line
// ---------------------------------------------------------------------------

/// Unicode general category Cc (control codes), as `char::is_control` tests it.
pub open spec fn spec_is_control(c: char) -> bool {
    ('\u{0}' <= c && c <= '\u{1f}') || ('\u{7f}' <= c && c <= '\u{9f}')
}

/// The Unicode `White_Space` property, as `char::is_whitespace` tests it.
pub open spec fn spec_is_whitespace(c: char) -> bool {
    ||| ('\u{9}' <= c && c <= '\u{d}')
    ||| c == ' '
    ||| c == '\u{85}'
    ||| c == '\u{a0}'
    ||| c == '\u{1680}'
    ||| ('\u{2000}' <= c && c <= '\u{200a}')
    ||| c == '\u{2028}'
    ||| c == '\u{2029}'
    ||| c == '\u{202f}'
    ||| c == '\u{205f}'
    ||| c == '\u{3000}'
}

/// Whether `c` is a control character (general category Cc).
pub fn is_control(c: char) -> (r: bool)
    ensures
        r == spec_is_control(c),
{
    ('\u{0}' <= c && c <= '\u{1f}') || ('\u{7f}' <= c && c <= '\u{9f}')
}

/// Whether `c` has the Unicode `White_Space` property.
pub fn is_whitespace(c: char) -> (r: bool)
    ensures
        r == spec_is_whitespace(c),
{
    ('\u{9}' <= c && c <= '\u{d}') || c == ' ' || c == '\u{85}' || c == '\u{a0}' || c
        == '\u{1680}' || ('\u{2000}' <= c && c <= '\u{200a}') || c == '\u{2028}' || c
        == '\u{2029}' || c == '\u{202f}' || c == '\u{205f}' || c == '\u{3000}'
}

/// A control character becomes a space; every other character stays.
pub open spec fn blank_control(c: char) -> char {
    if spec_is_control(c) {
        ' '
    } else {
        c
    }
}

/// `s` with every control character blanked.
pub open spec fn blanked(s: Seq<char>) -> Seq<char> {
    s.map_values(|c: char| blank_control(c))
}

/// The words of `s`: its maximal runs of non-whitespace characters, in order.
pub open spec fn words(s: Seq<char>) -> Seq<Seq<char>>
    decreases s.len(),
{
    if s.len() == 0 {
        seq![]
    } else {
        let init = s.drop_last();
        let c = s.last();
        let w = words(init);
        if spec_is_whitespace(c) {
            w
        } else if init.len() > 0 && !spec_is_whitespace(init.last()) {
            w.update(w.len() - 1, w.last().push(c))
        } else {
            w.push(seq![c])
        }
    }
}

/// The words of `ws`, each after the next with `sep` between them.
pub open spec fn join(ws: Seq<Seq<char>>, sep: Seq<char>) -> Seq<char>
    decreases ws.len(),
{
    if ws.len() == 0 {
        seq![]
    } else if ws.len() == 1 {
        ws[0]
    } else {
        join(ws.drop_last(), sep) + sep + ws.last()
    }
}

/// What `sanitize(s)` gives: the words of `s`, once its control characters
/// are blanked, joined by single spaces.
pub open spec fn sanitized(s: Seq<char>) -> Seq<char> {
    join(words(blanked(s)), seq![' '])
}

/// A word is never empty and holds no whitespace.
pub open spec fn is_word(w: Seq<char>) -> bool {
    w.len() > 0 && forall|k: int| 0 <= k < w.len() ==> !spec_is_whitespace(#[trigger] w[k])
}

proof fn lemma_words_shape(s: Seq<char>)
    ensures
        forall|k: int| 0 <= k < words(s).len() ==> is_word(#[trigger] words(s)[k]),
        forall|k: int, j: int|
            0 <= k < words(s).len() && 0 <= j < words(s)[k].len() ==> s.contains(
                #[trigger] words(s)[k][j],
            ),
        s.len() > 0 && !spec_is_whitespace(s.last()) ==> words(s).len() > 0,
    decreases s.len(),
{
    if s.len() > 0 {
        let init = s.drop_last();
        lemma_words_shape(init);
        let w = words(init);
        assert forall|k: int, j: int|
            0 <= k < words(s).len() && 0 <= j < words(s)[k].len() implies s.contains(
                #[trigger] words(s)[k][j],
            ) by {
            let x = words(s)[k][j];
            if spec_is_whitespace(s.last()) {
                assert(init.contains(x));
            } else if init.len() > 0 && !spec_is_whitespace(init.last()) {
                if k == w.len() - 1 && j == w.last().len() {
                    assert(x == s.last());
                    assert(s[s.len() - 1] == x);
                } else {
                    assert(init.contains(x));
                }
            } else {
                if k == w.len() {
                    assert(s[s.len() - 1] == x);
                } else {
                    assert(init.contains(x));
                }
            }
            if init.contains(x) {
                let i = choose|i: int| 0 <= i < init.len() && init[i] == x;
                assert(s[i] == x);
            }
        }
    }
}

proof fn lemma_join_push(ws: Seq<Seq<char>>, w: Seq<char>, sep: Seq<char>)
    ensures
        join(ws.push(w), sep) == if ws.len() == 0 { w } else { join(ws, sep) + sep + w },
{
    assert(ws.push(w).drop_last() =~= ws);
}

proof fn lemma_join_extend(ws: Seq<Seq<char>>, c: char, sep: Seq<char>)
    requires
        ws.len() > 0,
    ensures
        join(ws.update(ws.len() - 1, ws.last().push(c)), sep) == join(ws, sep).push(c),
{
    let u = ws.update(ws.len() - 1, ws.last().push(c));
    if ws.len() == 1 {
    } else {
        assert(u.drop_last() =~= ws.drop_last());
        assert(join(ws, sep) + sep + ws.last().push(c) =~= (join(ws, sep) + sep + ws.last()).push(c))
            by {
            assert(join(ws, sep) == join(ws.drop_last(), sep) + sep + ws.last());
        };
        assert((join(ws.drop_last(), sep) + sep + ws.last()).push(c) =~= join(ws.drop_last(), sep)
            + sep + ws.last().push(c));
    }
}

/// Collapses a string to a single displayable line: control characters become
/// spaces, and every run of whitespace becomes one space, none at either end.
pub fn sanitize(s: &str) -> (r: String)
    ensures
        r@ == sanitized(s@),
{
    let chars = chars_of(s);
    let ghost mapped = blanked(s@);
    let mut out = String::new();
    let mut has_word = false;
    let mut prev_ws = true;
    let mut i: usize = 0;
    while i < chars.len()
        invariant
            chars@ == s@,
            mapped == blanked(s@),
            0 <= i <= chars@.len(),
            out@ == join(words(mapped.take(i as int)), seq![' ']),
            has_word == (words(mapped.take(i as int)).len() > 0),
            prev_ws == (i == 0 || spec_is_whitespace(mapped[i - 1])),
        decreases chars@.len() - i,
    {
        let c0 = chars[i];
        let c = if is_control(c0) { ' ' } else { c0 };
        let ghost pre = mapped.take(i as int);
        let ghost next = mapped.take(i + 1);
        proof {
            assert(next.drop_last() =~= pre);
            assert(next.last() == c);
            lemma_words_shape(pre);
        }
        if is_whitespace(c) {
            prev_ws = true;
        } else {
            if has_word && !prev_ws {
                proof {
                    lemma_join_extend(words(pre), c, seq![' ']);
                }
                out.push(c);
            } else {
                proof {
                    lemma_join_push(words(pre), seq![c], seq![' ']);
                }
                if has_word {
                    out.push(' ');
                    assert(out@ =~= join(words(pre), seq![' ']) + seq![' ']);
                }
                out.push(c);
                assert(out@ =~= join(words(next), seq![' ']));
            }
            has_word = true;
            prev_ws = false;
        }
        i = i + 1;
    }
    assert(mapped.take(chars@.len() as int) =~= mapped);
    out
}


proof fn lemma_words_append_word(x: Seq<char>, l: Seq<char>)
    requires
        is_word(l),
        x.len() == 0 || spec_is_whitespace(x.last()),
    ensures
        words(x + l) == words(x).push(l),
    decreases l.len(),
{
    if l.len() == 1 {
        assert((x + l).drop_last() =~= x);
        assert(seq![l[0]] =~= l);
    } else {
        let ld = l.drop_last();
        assert forall|k: int| 0 <= k < ld.len() implies !spec_is_whitespace(#[trigger] ld[k]) by {
            assert(ld[k] == l[k]);
        }
        lemma_words_append_word(x, ld);
        assert((x + l).drop_last() =~= x + ld);
        assert((x + ld).last() == l[l.len() - 2]);
        assert(ld.push(l.last()) =~= l);
        assert(words(x).push(ld).update(words(x).len() as int, ld.push(l.last())) =~= words(x).push(
            l,
        ));
    }
}

proof fn lemma_words_of_join(ws: Seq<Seq<char>>)
    requires
        forall|k: int| 0 <= k < ws.len() ==> is_word(#[trigger] ws[k]),
    ensures
        words(join(ws, seq![' '])) == ws,
    decreases ws.len(),
{
    if ws.len() == 0 {
    } else if ws.len() == 1 {
        lemma_words_append_word(seq![], ws[0]);
        assert(Seq::<char>::empty() + ws[0] =~= ws[0]);
        assert(Seq::<Seq<char>>::empty().push(ws[0]) =~= ws);
    } else {
        let wd = ws.drop_last();
        assert forall|k: int| 0 <= k < wd.len() implies is_word(#[trigger] wd[k]) by {
            assert(wd[k] == ws[k]);
        }
        lemma_words_of_join(wd);
        let x = join(wd, seq![' ']) + seq![' '];
        assert(x.drop_last() =~= join(wd, seq![' ']));
        assert(words(x) == wd);
        lemma_words_append_word(x, ws.last());
        assert(wd.push(ws.last()) =~= ws);
    }
}

proof fn lemma_join_no_control(ws: Seq<Seq<char>>)
    requires
        forall|k: int, j: int|
            0 <= k < ws.len() && 0 <= j < ws[k].len() ==> !spec_is_control(#[trigger] ws[k][j]),
    ensures
        forall|i: int|
            0 <= i < join(ws, seq![' ']).len() ==> !spec_is_control(
                #[trigger] join(ws, seq![' '])[i],
            ),
    decreases ws.len(),
{
    if ws.len() == 1 {
        assert forall|i: int| 0 <= i < join(ws, seq![' ']).len() implies !spec_is_control(
            #[trigger] join(ws, seq![' '])[i],
        ) by {
            assert(join(ws, seq![' '])[i] == ws[0][i]);
        }
    } else if ws.len() > 1 {
        let wd = ws.drop_last();
        assert forall|k: int, j: int|
            0 <= k < wd.len() && 0 <= j < wd[k].len() implies !spec_is_control(
                #[trigger] wd[k][j],
            ) by {
            assert(wd[k] == ws[k]);
        }
        lemma_join_no_control(wd);
        let a = join(wd, seq![' ']);
        let w = ws.last();
        assert forall|i: int| 0 <= i < join(ws, seq![' ']).len() implies !spec_is_control(
            #[trigger] join(ws, seq![' '])[i],
        ) by {
            let j = join(ws, seq![' ']);
            assert(j == a + seq![' '] + w);
            if i < a.len() {
                assert(j[i] == a[i]);
            } else if i == a.len() {
                assert(j[i] == ' ');
            } else {
                assert(j[i] == w[i - a.len() - 1]);
                assert(ws[ws.len() - 1] == w);
            }
        }
    }
}

/// Every character of a sanitized text is a space or a character of the
/// input that is neither whitespace nor a control character.
proof fn lemma_sanitized_chars(s: Seq<char>)
    ensures
        forall|i: int|
            0 <= i < sanitized(s).len() ==> !spec_is_control(#[trigger] sanitized(s)[i]),
        forall|k: int| 0 <= k < words(blanked(s)).len() ==> is_word(
            #[trigger] words(blanked(s))[k],
        ),
{
    let m = blanked(s);
    lemma_words_shape(m);
    let ws = words(m);
    assert forall|k: int, j: int|
        0 <= k < ws.len() && 0 <= j < ws[k].len() implies !spec_is_control(#[trigger] ws[k][j]) by {
        assert(m.contains(ws[k][j]));
        let i = choose|i: int| 0 <= i < m.len() && m[i] == ws[k][j];
        assert(m[i] == blank_control(s[i]));
    }
    lemma_join_no_control(ws);
}

/// A sanitized text is one line: it holds no control character (so no line
/// break or tab), and its words are those of the input once control
/// characters are blanked.
pub proof fn lemma_sanitize_single_line(s: Seq<char>)
    ensures
        forall|i: int|
            0 <= i < sanitized(s).len() ==> !spec_is_control(#[trigger] sanitized(s)[i]),
        words(sanitized(s)) == words(blanked(s)),
{
    lemma_sanitized_chars(s);
    lemma_words_of_join(words(blanked(s)));
}

/// Sanitizing a sanitized text changes nothing.
pub proof fn lemma_sanitize_idempotent(s: Seq<char>)
    ensures
        sanitized(sanitized(s)) == sanitized(s),
{
    let t = sanitized(s);
    lemma_sanitized_chars(s);
    assert(blanked(t) =~= t);
    lemma_words_of_join(words(blanked(s)));
}


/// `s` without the whitespace at either end, as `str::trim` leaves it.
pub open spec fn trimmed(s: Seq<char>) -> Seq<char>
    decreases s.len(),
{
    if s.len() > 0 && spec_is_whitespace(s[0]) {
        trimmed(s.drop_first())
    } else if s.len() > 0 && spec_is_whitespace(s.last()) {
        trimmed(s.drop_last())
    } else {
        s
    }
}

/// `s` without the whitespace at either end.
pub fn trim(s: &str) -> (r: String)
    ensures
        r@ == trimmed(s@),
{
    let cs = chars_of(s);
    let mut i: usize = 0;
    let mut j: usize = cs.len();
    assert(cs@.subrange(0, cs@.len() as int) =~= s@);
    while i < j && is_whitespace(cs[i])
        invariant
            cs@ == s@,
            0 <= i <= j == cs@.len(),
            trimmed(cs@.subrange(i as int, j as int)) == trimmed(s@),
        decreases j - i,
    {
        assert(cs@.subrange(i as int, j as int).drop_first() =~= cs@.subrange(i + 1, j as int));
        i = i + 1;
    }
    while i < j && is_whitespace(cs[j - 1])
        invariant
            cs@ == s@,
            0 <= i <= j <= cs@.len(),
            i < j ==> !spec_is_whitespace(cs@[i as int]),
            trimmed(cs@.subrange(i as int, j as int)) == trimmed(s@),
        decreases j - i,
    {
        let ghost t = cs@.subrange(i as int, j as int);
        assert(t[0] == cs@[i as int]);
        assert(t.last() == cs@[j - 1]);
        assert(t.drop_last() =~= cs@.subrange(i as int, j - 1));
        j = j - 1;
    }
    proof {
        let t = cs@.subrange(i as int, j as int);
        if i < j {
            assert(t[0] == cs@[i as int]);
            assert(t.last() == cs@[j - 1]);
        }
    }
    string_from_chars(&cs, i, j)
}

// ---------------------------------------------------------------------------
// Numbers
// ---------------------------------------------------------------------------

/// The digit character for `d` (0 to 9).
pub open spec fn digit_char(d: nat) -> char {
    seq!['0', '1', '2', '3', '4', '5', '6', '7', '8', '9'][d as int]
}

/// `n` written in decimal, without leading zeros.
pub open spec fn decimal(n: nat) -> Seq<char>
    decreases n,
{
    if n < 10 {
        seq![digit_char(n)]
    } else {
        decimal(n / 10).push(digit_char(n % 10))
    }
}

/// Appends `n`, written in decimal, to `out`.
pub fn push_decimal(out: &mut String, n: usize)
    ensures
        final(out)@ == old(out)@ + decimal(n as nat),
    decreases n,
{
    if n >= 10 {
        push_decimal(out, n / 10);
    }
    let d = n % 10;
    let c = if d == 0 {
        '0'
    } else if d == 1 {
        '1'
    } else if d == 2 {
        '2'
    } else if d == 3 {
        '3'
    } else if d == 4 {
        '4'
    } else if d == 5 {
        '5'
    } else if d == 6 {
        '6'
    } else if d == 7 {
        '7'
    } else if d == 8 {
        '8'
    } else {
        '9'
    };
    assert(c == digit_char(d as nat));
    out.push(c);
    assert(out@ =~= old(out)@ + decimal(n as nat));
}


// ---------------------------------------------------------------------------
// Padding and joining
// ---------------------------------------------------------------------------

/// `s` filled with spaces on the right to `width` characters; as it is when
/// already that wide.
pub open spec fn padded(s: Seq<char>, width: nat) -> Seq<char> {
    if s.len() < width {
        s + Seq::new((width - s.len()) as nat, |i: int| ' ')
    } else {
        s
    }
}

/// `s` filled with spaces on the right to `width` characters, as `{:<width$}`
/// writes it.
pub fn pad_right(s: &str, width: usize) -> (r: String)
    ensures
        r@ == padded(s@, width as nat),
{
    let cs = chars_of(s);
    let mut r = String::new();
    push_all(&mut r, s);
    let mut n = cs.len();
    while n < width
        invariant
            cs@ == s@,
            cs@.len() <= n <= width || (n == cs@.len() && n >= width),
            r@ == s@ + Seq::new((n - cs@.len()) as nat, |i: int| ' '),
        decreases width - n,
    {
        r.push(' ');
        n = n + 1;
        assert(r@ =~= s@ + Seq::new((n - cs@.len()) as nat, |i: int| ' '));
    }
    if cs.len() >= width {
        assert(r@ =~= s@);
    }
    r
}

/// The strings of `v`, each after the next with `sep` between them.
pub fn join_strings(v: &Vec<String>, sep: &str) -> (r: String)
    ensures
        r@ == join(v@.map_values(|s: String| s@), sep@),
{
    let ghost w = v@.map_values(|s: String| s@);
    let mut r = String::new();
    let mut i: usize = 0;
    while i < v.len()
        invariant
            w == v@.map_values(|s: String| s@),
            0 <= i <= v@.len(),
            r@ == join(w.take(i as int), sep@),
        decreases v@.len() - i,
    {
        proof {
            assert(w.take(i + 1).drop_last() =~= w.take(i as int));
            assert(w.take(i + 1).last() == v@[i as int]@);
        }
        if i > 0 {
            push_all(&mut r, sep);
        }
        push_all(&mut r, v[i].as_str());
        proof {
            if i == 0 {
                assert(w.take(1) =~= seq![v@[0]@]);
                assert(r@ =~= v@[0]@);
            }
        }
        i = i + 1;
    }
    assert(w.take(v@.len() as int) =~= w);
    r
}


/// The only whitespace in words joined by single spaces is those spaces:
/// each stands between two non-whitespace characters.
proof fn lemma_join_spacing(ws: Seq<Seq<char>>)
    requires
        forall|k: int| 0 <= k < ws.len() ==> is_word(#[trigger] ws[k]),
    ensures
        ws.len() > 0 ==> join(ws, seq![' ']).len() > 0,
        forall|i: int|
            0 <= i < join(ws, seq![' ']).len() && spec_is_whitespace(
                #[trigger] join(ws, seq![' '])[i],
            ) ==> 0 < i && i + 1 < join(ws, seq![' ']).len() && !spec_is_whitespace(
                join(ws, seq![' '])[i - 1],
            ) && !spec_is_whitespace(join(ws, seq![' '])[i + 1]),
    decreases ws.len(),
{
    if ws.len() == 1 {
        let w = ws[0];
        assert(join(ws, seq![' ']) == w);
        assert(is_word(ws[0]));
    } else if ws.len() > 1 {
        let wd = ws.drop_last();
        assert forall|k: int| 0 <= k < wd.len() implies is_word(#[trigger] wd[k]) by {
            assert(wd[k] == ws[k]);
        }
        lemma_join_spacing(wd);
        let a = join(wd, seq![' ']);
        let w = ws.last();
        assert(is_word(ws[ws.len() - 1]));
        let j = join(ws, seq![' ']);
        assert(j == a + seq![' '] + w);
        assert forall|i: int|
            0 <= i < j.len() && spec_is_whitespace(#[trigger] j[i]) implies 0 < i && i + 1
            < j.len() && !spec_is_whitespace(j[i - 1]) && !spec_is_whitespace(j[i + 1]) by {
            if i < a.len() {
                assert(j[i] == a[i]);
                assert(j[i - 1] == a[i - 1]);
                assert(j[i + 1] == a[i + 1]);
            } else if i == a.len() {
                assert(j[i + 1] == w[0]);
                assert(j[i - 1] == a[a.len() - 1]);
                if spec_is_whitespace(a[a.len() - 1]) {
                    assert(a.len() - 1 + 1 < a.len());
                }
            } else {
                assert(j[i] == w[i - a.len() - 1]);
            }
        }
    }
}

/// A sanitized text is collapsed: every whitespace character in it is a
/// single space between two non-whitespace characters, so it neither starts
/// nor ends with one and holds no two in a row.
pub proof fn lemma_sanitize_collapsed(s: Seq<char>)
    ensures
        forall|i: int|
            0 <= i < sanitized(s).len() && spec_is_whitespace(#[trigger] sanitized(s)[i]) ==> sanitized(
                s,
            )[i] == ' ' && 0 < i && i + 1 < sanitized(s).len() && !spec_is_whitespace(
                sanitized(s)[i - 1],
            ) && !spec_is_whitespace(sanitized(s)[i + 1]),
{
    lemma_sanitized_chars(s);
    let ws = words(blanked(s));
    lemma_join_spacing(ws);
    lemma_join_only_spaces(ws);
}

/// Joining words with single spaces adds no whitespace but those spaces.
proof fn lemma_join_only_spaces(ws: Seq<Seq<char>>)
    requires
        forall|k: int| 0 <= k < ws.len() ==> is_word(#[trigger] ws[k]),
    ensures
        forall|i: int|
            0 <= i < join(ws, seq![' ']).len() && spec_is_whitespace(
                #[trigger] join(ws, seq![' '])[i],
            ) ==> join(ws, seq![' '])[i] == ' ',
    decreases ws.len(),
{
    if ws.len() == 1 {
        assert(is_word(ws[0]));
    } else if ws.len() > 1 {
        let wd = ws.drop_last();
        assert forall|k: int| 0 <= k < wd.len() implies is_word(#[trigger] wd[k]) by {
            assert(wd[k] == ws[k]);
        }
        lemma_join_only_spaces(wd);
        let a = join(wd, seq![' ']);
        let w = ws.last();
        assert(is_word(ws[ws.len() - 1]));
        let j = join(ws, seq![' ']);
        assert(j == a + seq![' '] + w);
        assert forall|i: int|
            0 <= i < j.len() && spec_is_whitespace(#[trigger] j[i]) implies j[i] == ' ' by {
            if i < a.len() {
                assert(j[i] == a[i]);
            } else if i > a.len() {
                assert(j[i] == w[i - a.len() - 1]);
            }
        }
    }
}

} // verus!
