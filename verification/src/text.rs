//! Text helpers: byte offsets into UTF-8 text, the edits of the command
//! line, the escape of a key for display, and the truncation and padding of
//! a cell for the screen.

use vstd::prelude::*;
use vstd::string::*;
use vstd::utf8::*;

verus! {

/// The number of bytes of the UTF-8 encoding of `s`.
pub open spec fn byte_len(s: Seq<char>) -> int {
    encode_utf8(s).len() as int
}

/// The number of leading characters of `s` that fit in its first `b`
/// bytes: where `b` lies on a character boundary, the characters before it.
pub open spec fn char_index(s: Seq<char>, b: int) -> int
    decreases s.len(),
{
    if b <= 0 || s.len() == 0 {
        0
    } else {
        1 + char_index(s.drop_first(), b - encode_scalar(s[0] as u32).len())
    }
}

/// Whether the byte offset `b` starts a character of `s` or ends it.
pub open spec fn on_boundary(s: Seq<char>, b: int) -> bool {
    is_char_boundary(encode_utf8(s), b)
}

pub proof fn lemma_scalar_width(c: char)
    ensures
        1 <= encode_scalar(c as u32).len() <= 4,
{
}

pub proof fn lemma_encode_concat(a: Seq<char>, b: Seq<char>)
    ensures
        encode_utf8(a + b) == encode_utf8(a) + encode_utf8(b),
    decreases a.len(),
{
    if a.len() == 0 {
        assert(a + b =~= b);
    } else {
        lemma_encode_concat(a.drop_first(), b);
        assert((a + b).drop_first() =~= a.drop_first() + b);
        assert((a + b)[0] == a[0]);
    }
}

pub proof fn lemma_byte_len_concat(a: Seq<char>, b: Seq<char>)
    ensures
        byte_len(a + b) == byte_len(a) + byte_len(b),
{
    lemma_encode_concat(a, b);
}

pub proof fn lemma_byte_len_single(c: char)
    ensures
        byte_len(seq![c]) == encode_scalar(c as u32).len(),
        1 <= byte_len(seq![c]) <= 4,
{
    assert(seq![c].drop_first() =~= Seq::<char>::empty());
    assert(encode_utf8(seq![c]) =~= encode_scalar(c as u32) + encode_utf8(Seq::<char>::empty()));
}

/// Each character takes at least one byte.
pub proof fn lemma_byte_len_at_least(s: Seq<char>)
    ensures
        byte_len(s) >= s.len(),
    decreases s.len(),
{
    if s.len() > 0 {
        lemma_byte_len_at_least(s.drop_first());
    }
}

/// The bytes of the first characters of a text count exactly those
/// characters.
pub proof fn lemma_char_index_prefix(p: Seq<char>, r: Seq<char>)
    ensures
        char_index(p + r, byte_len(p)) == p.len(),
    decreases p.len(),
{
    if p.len() > 0 {
        lemma_char_index_prefix(p.drop_first(), r);
        assert((p + r).drop_first() =~= p.drop_first() + r);
        assert((p + r)[0] == p[0]);
        lemma_byte_len_at_least(p);
    }
}

/// The end of the first characters of a text is a character boundary of it.
pub proof fn lemma_prefix_on_boundary(p: Seq<char>, r: Seq<char>)
    ensures
        on_boundary(p + r, byte_len(p)),
    decreases p.len(),
{
    broadcast use encode_utf8_valid_utf8;

    if p.len() > 0 {
        let s = p + r;
        lemma_prefix_on_boundary(p.drop_first(), r);
        assert(s.drop_first() =~= p.drop_first() + r);
        assert(s[0] == p[0]);
        encode_utf8_first_scalar(s);
        assert(pop_first_scalar(encode_utf8(s)) =~= encode_utf8(s.drop_first()));
        lemma_byte_len_concat(p, r);
        lemma_byte_len_at_least(p);
    }
}

/// A character boundary of a text ends some number of its first
/// characters, and `char_index` counts them.
pub proof fn lemma_boundary_prefix(s: Seq<char>, b: int)
    requires
        on_boundary(s, b),
    ensures
        0 <= char_index(s, b) <= s.len(),
        byte_len(s.take(char_index(s, b))) == b,
    decreases s.len(),
{
    broadcast use encode_utf8_valid_utf8;

    if b == 0 {
        assert(s.take(0) =~= Seq::<char>::empty());
        if s.len() > 0 {
            assert(char_index(s, b) == 0);
        }
    } else {
        let bytes = encode_utf8(s);
        assert(s.len() > 0);
        encode_utf8_first_scalar(s);
        assert(pop_first_scalar(bytes) =~= encode_utf8(s.drop_first()));
        let w = encode_scalar(s[0] as u32).len() as int;
        lemma_scalar_width(s[0]);
        lemma_boundary_prefix(s.drop_first(), b - w);
        let k = char_index(s.drop_first(), b - w);
        assert(char_index(s, b) == 1 + k);
        assert(s.take(1 + k) =~= seq![s[0]] + s.drop_first().take(k));
        lemma_byte_len_concat(seq![s[0]], s.drop_first().take(k));
        lemma_byte_len_single(s[0]);
    }
}

/// `String::insert` of std: inserts `c` at byte offset `idx`, which must be
/// a character boundary (std panics otherwise). The contract states the
/// result as the characters before `idx`, then `c`, then the rest.
#[verifier::external_body]
pub(crate) fn string_insert(s: &mut String, idx: usize, c: char)
    requires
        on_boundary(old(s)@, idx as int),
    ensures
        final(s)@ == old(s)@.insert(char_index(old(s)@, idx as int), c),
{
    s.insert(idx, c)
}

/// `String::remove` of std: removes and returns the character that starts at
/// byte offset `idx`, which must be a character boundary before the end
/// (std panics otherwise).
#[verifier::external_body]
pub(crate) fn string_remove(s: &mut String, idx: usize) -> (c: char)
    requires
        on_boundary(old(s)@, idx as int),
        (idx as int) < byte_len(old(s)@),
    ensures
        c == old(s)@[char_index(old(s)@, idx as int)],
        final(s)@ == old(s)@.remove(char_index(old(s)@, idx as int)),
{
    s.remove(idx)
}

/// `String::push` of std: appends one character.
#[verifier::external_body]
pub(crate) fn string_push(s: &mut String, c: char)
    ensures
        final(s)@ == old(s)@.push(c),
{
    s.push(c)
}

/// The byte length of a text, as `str::len` gives it.
pub fn text_byte_len(s: &String) -> (n: usize)
    ensures
        n == byte_len(s@),
{
    s.as_str().as_bytes().len()
}

/// Whether a byte offset lies on a character boundary of a text, as
/// `str::is_char_boundary` tells.
pub fn text_on_boundary(s: &String, idx: usize) -> (b: bool)
    ensures
        b == on_boundary(s@, idx as int),
{
    s.as_str().is_char_boundary(idx)
}

/// The first `max` characters of `s`, or all of `s` where it has no more.
pub open spec fn truncated(s: Seq<char>, max: int) -> Seq<char> {
    if s.len() <= max {
        s
    } else {
        s.take(max)
    }
}

/// `s` followed by as many spaces as it takes to reach `width` characters;
/// `s` itself where it is that long already.
pub open spec fn padded(s: Seq<char>, width: int) -> Seq<char> {
    if s.len() >= width {
        s
    } else {
        s + Seq::new((width - s.len()) as nat, |i: int| ' ')
    }
}

/// Cuts `s` after its first `max_chars` characters; `s` itself where it has
/// no more than that.
pub fn truncate(s: &str, max_chars: usize) -> (r: &str)
    ensures
        r@ == truncated(s@, max_chars as int),
{
    if s.unicode_len() <= max_chars {
        s
    } else {
        s.substring_char(0, max_chars)
    }
}

/// Pads `s` on the right with spaces up to `width` characters, as the
/// format `{:<width$}` does.
pub fn pad_right(s: &str, width: usize) -> (r: String)
    ensures
        r@ == padded(s@, width as int),
{
    let mut r = s.to_string();
    let n = s.unicode_len();
    let mut i = n;
    while i < width
        invariant
            n == s@.len(),
            n <= i,
            i == n || i <= width,
            r@ == s@ + Seq::new((i - n) as nat, |j: int| ' '),
        decreases width - i,
    {
        string_push(&mut r, ' ');
        i = i + 1;
        assert(r@ =~= s@ + Seq::new((i - n) as nat, |j: int| ' '));
    }
    if n >= width {
        assert(r@ =~= s@);
    } else {
        assert(i == width);
    }
    r
}

/// The lower-case hexadecimal digit of `d`, which is below sixteen.
pub open spec fn hex_digit(d: int) -> char {
    if d < 10 {
        ((48 + d) as u8) as char
    } else {
        ((87 + d) as u8) as char
    }
}

/// The lower-case hexadecimal numeral of `n`, with no leading zero.
pub open spec fn hex_text(n: nat) -> Seq<char>
    decreases n,
{
    if n < 16 {
        seq![hex_digit(n as int)]
    } else {
        hex_text(n / 16).push(hex_digit((n % 16) as int))
    }
}

/// How `char::escape_default` of std writes a character: the escapes `\t`,
/// `\r`, `\n`, `\\`, `\'` and `\"`; a printable ASCII character as itself;
/// any other as `\u{..}` with its code in hexadecimal.
pub open spec fn escaped(c: char) -> Seq<char> {
    if c == '\t' {
        seq!['\\', 't']
    } else if c == '\r' {
        seq!['\\', 'r']
    } else if c == '\n' {
        seq!['\\', 'n']
    } else if c == '\\' || c == '\'' || c == '"' {
        seq!['\\', c]
    } else if ' ' <= c && c <= '~' {
        seq![c]
    } else {
        seq!['\\', 'u', '{'] + hex_text(c as nat) + seq!['}']
    }
}

fn push_hex(s: &mut String, n: u32)
    ensures
        final(s)@ == old(s)@ + hex_text(n as nat),
    decreases n,
{
    if n >= 16 {
        push_hex(s, n / 16);
    }
    let d = n % 16;
    let ch = if d < 10 {
        (48u8 + d as u8) as char
    } else {
        (87u8 + d as u8) as char
    };
    string_push(s, ch);
    assert(s@ =~= old(s)@ + hex_text(n as nat));
}

/// The text that shows a key to the user: `c` escaped as
/// `char::escape_default` does it.
pub fn escape_default(c: char) -> (r: String)
    ensures
        r@ == escaped(c),
{
    let mut r = String::new();
    if c == '\t' {
        string_push(&mut r, '\\');
        string_push(&mut r, 't');
    } else if c == '\r' {
        string_push(&mut r, '\\');
        string_push(&mut r, 'r');
    } else if c == '\n' {
        string_push(&mut r, '\\');
        string_push(&mut r, 'n');
    } else if c == '\\' || c == '\'' || c == '"' {
        string_push(&mut r, '\\');
        string_push(&mut r, c);
    } else if ' ' <= c && c <= '~' {
        string_push(&mut r, c);
    } else {
        string_push(&mut r, '\\');
        string_push(&mut r, 'u');
        string_push(&mut r, '{');
        push_hex(&mut r, c as u32);
        string_push(&mut r, '}');
    }
    assert(r@ =~= escaped(c));
    r
}

} // verus!
