//! Rendering and inspection of plain text.
//!
//! The specification functions describe text as a sequence of characters; each
//! `push_…` function appends exactly the sequence that its specification names.

use vstd::prelude::*;

verus! {

/// `String::push` appends one character to the end of the string.
pub assume_specification[ String::push ](s: &mut String, c: char)
    ensures
        final(s)@ == old(s)@.push(c),
;

// -- Digits -------------------------------------------------------------------

/// The lowercase digit for `d`, for bases up to sixteen.
pub open spec fn digit(d: nat) -> char {
    if d < 10 {
        ('0' as nat + d) as char
    } else {
        ('a' as nat + d - 10) as char
    }
}

/// The uppercase digit for `d`, for bases up to sixteen.
pub open spec fn digit_upper(d: nat) -> char {
    if d < 10 {
        ('0' as nat + d) as char
    } else {
        ('A' as nat + d - 10) as char
    }
}

/// `n` in decimal, without leading zeros.
pub open spec fn dec(n: nat) -> Seq<char>
    decreases n,
{
    if n < 10 {
        seq![digit(n)]
    } else {
        dec(n / 10).push(digit(n % 10))
    }
}

/// `i` in decimal, with a leading minus sign if it is negative.
pub open spec fn dec_signed(i: int) -> Seq<char> {
    if i < 0 {
        seq!['-'] + dec((-i) as nat)
    } else {
        dec(i as nat)
    }
}

/// The two lowercase hexadecimal digits of a byte.
pub open spec fn hex2(b: u8) -> Seq<char> {
    seq![digit((b / 16) as nat), digit((b % 16) as nat)]
}

/// The two uppercase hexadecimal digits of a byte.
pub open spec fn hex2_upper(b: u8) -> Seq<char> {
    seq![digit_upper((b / 16) as nat), digit_upper((b % 16) as nat)]
}

/// The four lowercase hexadecimal digits of a 16-bit word.
pub open spec fn hex4(w: u16) -> Seq<char> {
    hex2((w / 256) as u8) + hex2((w % 256) as u8)
}

/// The four uppercase hexadecimal digits of a 16-bit word.
pub open spec fn hex4_upper(w: u16) -> Seq<char> {
    hex2_upper((w / 256) as u8) + hex2_upper((w % 256) as u8)
}

fn digit_char(d: u8) -> (c: char)
    requires
        d < 16,
    ensures
        c == digit(d as nat),
{
    if d < 10 {
        (48u8 + d) as char
    } else {
        (87u8 + d) as char
    }
}

fn digit_char_upper(d: u8) -> (c: char)
    requires
        d < 16,
    ensures
        c == digit_upper(d as nat),
{
    if d < 10 {
        (48u8 + d) as char
    } else {
        (55u8 + d) as char
    }
}

/// Append `n` in decimal.
pub fn push_dec(out: &mut String, n: u64)
    ensures
        final(out)@ == old(out)@ + dec(n as nat),
    decreases n,
{
    if n >= 10 {
        push_dec(out, n / 10);
    }
    out.push(digit_char((n % 10) as u8));
}

/// Append `i` in decimal, with a minus sign if it is negative.
pub fn push_dec_signed(out: &mut String, i: i64)
    ensures
        final(out)@ == old(out)@ + dec_signed(i as int),
{
    if i < 0 {
        out.push('-');
        let magnitude: u64 = (-(i as i128)) as u64;
        push_dec(out, magnitude);
    } else {
        push_dec(out, i as u64);
    }
}

/// Append the two lowercase hexadecimal digits of `b`.
pub fn push_hex2(out: &mut String, b: u8)
    ensures
        final(out)@ == old(out)@ + hex2(b),
{
    out.push(digit_char(b / 16));
    out.push(digit_char(b % 16));
}

/// Append the two uppercase hexadecimal digits of `b`.
pub fn push_hex2_upper(out: &mut String, b: u8)
    ensures
        final(out)@ == old(out)@ + hex2_upper(b),
{
    out.push(digit_char_upper(b / 16));
    out.push(digit_char_upper(b % 16));
}

/// Append the four lowercase hexadecimal digits of `w`.
pub fn push_hex4(out: &mut String, w: u16)
    ensures
        final(out)@ == old(out)@ + hex4(w),
{
    push_hex2(out, (w / 256) as u8);
    push_hex2(out, (w % 256) as u8);
}

/// Append the four uppercase hexadecimal digits of `w`.
pub fn push_hex4_upper(out: &mut String, w: u16)
    ensures
        final(out)@ == old(out)@ + hex4_upper(w),
{
    push_hex2_upper(out, (w / 256) as u8);
    push_hex2_upper(out, (w % 256) as u8);
}

/// A digit determines the value it stands for.
pub proof fn lemma_digit_injective(a: nat, b: nat)
    requires
        a < 16,
        b < 16,
    ensures
        digit(a) == digit(b) ==> a == b,
        digit_upper(a) == digit_upper(b) ==> a == b,
{
}

// -- Joining ------------------------------------------------------------------

/// The parts in order, with `sep` between neighbours.
pub open spec fn join(parts: Seq<Seq<char>>, sep: Seq<char>) -> Seq<char>
    decreases parts.len(),
{
    if parts.len() == 0 {
        seq![]
    } else if parts.len() == 1 {
        parts[0]
    } else {
        join(parts.drop_last(), sep) + sep + parts.last()
    }
}

/// The contents of each string of a sequence.
pub open spec fn texts(parts: Seq<String>) -> Seq<Seq<char>> {
    Seq::new(parts.len(), |i: int| parts[i]@)
}

/// Join the parts with `sep` between neighbours.
pub fn join_text(parts: &Vec<String>, sep: &str) -> (out: String)
    ensures
        out@ == join(texts(parts@), sep@),
{
    let mut out = String::new();
    let mut i: usize = 0;
    while i < parts.len()
        invariant
            i <= parts.len(),
            out@ == join(texts(parts@).take(i as int), sep@),
        decreases parts.len() - i,
    {
        let ghost before = texts(parts@).take(i as int);
        if i > 0 {
            out.append(sep);
        }
        out.append(parts[i].as_str());
        proof {
            assert(texts(parts@).take(i + 1).drop_last() =~= before);
            assert(out@ =~= join(texts(parts@).take(i + 1), sep@));
        }
        i = i + 1;
    }
    assert(texts(parts@).take(i as int) =~= texts(parts@));
    out
}

/// Copy strings one by one.
pub fn clone_texts(parts: &Vec<String>) -> (out: Vec<String>)
    ensures
        texts(out@) == texts(parts@),
{
    let mut out: Vec<String> = Vec::new();
    let mut i: usize = 0;
    while i < parts.len()
        invariant
            i <= parts.len(),
            out@.len() == i,
            forall|j: int| 0 <= j < i ==> (#[trigger] out@[j])@ == parts@[j]@,
        decreases parts.len() - i,
    {
        out.push(parts[i].clone());
        i = i + 1;
    }
    assert(texts(out@) =~= texts(parts@));
    out
}

/// Whether a text is among the parts.
pub fn lists_text(parts: &Vec<String>, wanted: &str) -> (r: bool)
    ensures
        r == texts(parts@).contains(wanted@),
{
    let mut i: usize = 0;
    while i < parts.len()
        invariant
            i <= parts.len(),
            forall|j: int| 0 <= j < i ==> (#[trigger] texts(parts@)[j]) != wanted@,
        decreases parts.len() - i,
    {
        if same_text(parts[i].as_str(), wanted) {
            assert(texts(parts@)[i as int] == wanted@);
            return true;
        }
        i = i + 1;
    }
    false
}

// -- Comparing ----------------------------------------------------------------

/// Whether two texts are equal.
pub fn same_text(a: &str, b: &str) -> (r: bool)
    ensures
        r == (a@ == b@),
{
    a.to_owned() == b.to_owned()
}

/// The characters of a text.
pub fn chars_of(s: &str) -> (v: Vec<char>)
    ensures
        v@ == s@,
{
    let mut v: Vec<char> = Vec::new();
    for c in it: s.chars()
        invariant
            v@ == it.seq().take(it.index()),
    {
        v.push(c);
    }
    v
}

/// The text made of the characters from `from` up to, not including, `to`.
pub fn text_of(v: &Vec<char>, from: usize, to: usize) -> (s: String)
    requires
        from <= to <= v.len(),
    ensures
        s@ == v@.subrange(from as int, to as int),
{
    let mut s = String::new();
    let mut i: usize = from;
    while i < to
        invariant
            from <= i <= to <= v.len(),
            s@ == v@.subrange(from as int, i as int),
        decreases to - i,
    {
        s.push(v[i]);
        i = i + 1;
    }
    s
}

// -- Case, white space and quoting --------------------------------------------

/// Whether every character is ASCII.
pub open spec fn all_ascii(s: Seq<char>) -> bool {
    forall|i: int| 0 <= i < s.len() ==> (#[trigger] s[i] as nat) < 128
}

/// The uppercase form of an ASCII letter; any other character is itself.
pub open spec fn ascii_upper(c: char) -> char {
    if 'a' <= c <= 'z' {
        (c as nat - 32) as char
    } else {
        c
    }
}

/// The lowercase form of an ASCII letter; any other character is itself.
pub open spec fn ascii_lower(c: char) -> char {
    if 'A' <= c <= 'Z' {
        (c as nat + 32) as char
    } else {
        c
    }
}

/// Put the ASCII letters of a text in lower case.
pub fn lower_ascii(s: &str) -> (out: String)
    ensures
        out@ == s@.map_values(|c: char| ascii_lower(c)),
{
    let chars = chars_of(s);
    let mut out = String::new();
    let mut i: usize = 0;
    while i < chars.len()
        invariant
            i <= chars.len(),
            out@ == chars@.take(i as int).map_values(|c: char| ascii_lower(c)),
        decreases chars.len() - i,
    {
        let c: char = chars[i];
        if 'A' <= c && c <= 'Z' {
            out.push(((c as u8) + 32) as char);
        } else {
            out.push(c);
        }
        i = i + 1;
        assert(out@ =~= chars@.take(i as int).map_values(|c: char| ascii_lower(c)));
    }
    assert(chars@.take(i as int) =~= chars@);
    out
}

/// Put the ASCII letters of a text in upper case.
pub fn upper_ascii(s: &str) -> (out: String)
    ensures
        out@ == s@.map_values(|c: char| ascii_upper(c)),
{
    let chars = chars_of(s);
    let mut out = String::new();
    let mut i: usize = 0;
    while i < chars.len()
        invariant
            i <= chars.len(),
            out@ == chars@.take(i as int).map_values(|c: char| ascii_upper(c)),
        decreases chars.len() - i,
    {
        let c: char = chars[i];
        if 'a' <= c && c <= 'z' {
            out.push(((c as u8) - 32) as char);
        } else {
            out.push(c);
        }
        i = i + 1;
        assert(out@ =~= chars@.take(i as int).map_values(|c: char| ascii_upper(c)));
    }
    assert(chars@.take(i as int) =~= chars@);
    out
}

/// What `str::to_uppercase` makes of a text.
pub uninterp spec fn uppercased(s: Seq<char>) -> Seq<char>;

/// What `str::to_lowercase` makes of a text.
pub uninterp spec fn lowercased(s: Seq<char>) -> Seq<char>;

/// What the `Debug` form of a `str` is: the text in double quotes, with escapes.
pub uninterp spec fn debug_quoted(s: Seq<char>) -> Seq<char>;

/// `str::to_uppercase` depends on the text alone. On ASCII text it replaces
/// each letter by its uppercase form. No lowercase ASCII letter remains in what
/// it makes of any text; beyond that nothing more is claimed.
pub assume_specification[ str::to_uppercase ](s: &str) -> (r: String)
    ensures
        r@ == uppercased(s@),
        forall|i: int| 0 <= i < r@.len() ==> !('a' <= #[trigger] r@[i] <= 'z'),
        all_ascii(s@) ==> r@ == s@.map_values(|c: char| ascii_upper(c)),
;

/// `str::to_lowercase` depends on the text alone. On ASCII text it replaces
/// each letter by its lowercase form; beyond ASCII nothing more is claimed.
pub assume_specification[ str::to_lowercase ](s: &str) -> (r: String)
    ensures
        r@ == lowercased(s@),
        all_ascii(s@) ==> r@ == s@.map_values(|c: char| ascii_lower(c)),
;

/// Whether a character has the Unicode property White_Space.
pub open spec fn is_white_space(c: char) -> bool {
    let code = c as nat;
    ||| 0x09 <= code <= 0x0D
    ||| code == 0x20
    ||| code == 0x85
    ||| code == 0xA0
    ||| code == 0x1680
    ||| 0x2000 <= code <= 0x200A
    ||| code == 0x2028
    ||| code == 0x2029
    ||| code == 0x202F
    ||| code == 0x205F
    ||| code == 0x3000
}

/// `char::is_whitespace` tells the characters that the Unicode Character
/// Database gives the property White_Space.
pub assume_specification[ char::is_whitespace ](c: char) -> (r: bool)
    ensures
        r == is_white_space(c),
;

/// A text without the white space around it.
pub open spec fn trimmed(s: Seq<char>) -> Seq<char>
    decreases s.len(),
{
    if s.len() == 0 {
        s
    } else if is_white_space(s[0]) {
        trimmed(s.drop_first())
    } else if is_white_space(s.last()) {
        trimmed(s.drop_last())
    } else {
        s
    }
}

/// Take the white space around a text away.
pub fn trim_text(s: &str) -> (out: String)
    ensures
        out@ == trimmed(s@),
{
    let chars = chars_of(s);
    let mut from: usize = 0;
    let mut to: usize = chars.len();
    assert(chars@.subrange(0, to as int) =~= chars@);
    while from < to && chars[from].is_whitespace()
        invariant
            from <= to == chars.len(),
            trimmed(chars@.subrange(from as int, to as int)) == trimmed(chars@),
        decreases to - from,
    {
        assert(chars@.subrange(from as int, to as int).drop_first() =~= chars@.subrange(
            from + 1,
            to as int,
        ));
        from = from + 1;
    }
    while from < to && chars[to - 1].is_whitespace()
        invariant
            from <= to <= chars.len(),
            from < to ==> !is_white_space(chars@[from as int]),
            trimmed(chars@.subrange(from as int, to as int)) == trimmed(chars@),
        decreases to - from,
    {
        assert(chars@.subrange(from as int, to as int).drop_last() =~= chars@.subrange(
            from as int,
            to - 1,
        ));
        to = to - 1;
    }
    text_of(&chars, from, to)
}

/// The `Debug` form of `str`, which depends on the text alone.
#[verifier::external_body]
pub(crate) fn debug_text(s: &str) -> (r: String)
    ensures
        r@ == debug_quoted(s@),
{
    format!("{s:?}")
}

// -- Searching ----------------------------------------------------------------

/// Whether `needle` occurs in `hay`.
pub open spec fn contains_seq(hay: Seq<char>, needle: Seq<char>) -> bool {
    exists|i: int|
        0 <= i && i + needle.len() <= hay.len() && #[trigger] hay.subrange(i, i + needle.len())
            == needle
}

/// Whether `hay` starts with `prefix`.
pub open spec fn starts_with_seq(hay: Seq<char>, prefix: Seq<char>) -> bool {
    prefix.len() <= hay.len() && hay.take(prefix.len() as int) == prefix
}

/// The text without its spaces.
pub open spec fn without_spaces(s: Seq<char>) -> Seq<char>
    decreases s.len(),
{
    if s.len() == 0 {
        seq![]
    } else if s.last() == ' ' {
        without_spaces(s.drop_last())
    } else {
        without_spaces(s.drop_last()).push(s.last())
    }
}

/// The characters of a text without its spaces.
pub fn strip_spaces(s: &str) -> (v: Vec<char>)
    ensures
        v@ == without_spaces(s@),
{
    let all = chars_of(s);
    let mut v: Vec<char> = Vec::new();
    let mut i: usize = 0;
    while i < all.len()
        invariant
            i <= all.len(),
            v@ == without_spaces(all@.take(i as int)),
        decreases all.len() - i,
    {
        assert(all@.take(i + 1).drop_last() =~= all@.take(i as int));
        if all[i] != ' ' {
            v.push(all[i]);
        }
        i = i + 1;
    }
    assert(all@.take(i as int) =~= all@);
    v
}

/// Whether `part` stands in `hay` at position `at`.
fn occurs_at(hay: &Vec<char>, part: &Vec<char>, at: usize) -> (r: bool)
    requires
        at + part.len() <= hay.len(),
    ensures
        r == (hay@.subrange(at as int, at + part.len()) == part@),
{
    let mut i: usize = 0;
    while i < part.len()
        invariant
            i <= part.len(),
            at + part.len() <= hay.len(),
            hay@.subrange(at as int, at + i) =~= part@.take(i as int),
        decreases part.len() - i,
    {
        if hay[at + i] != part[i] {
            assert(hay@.subrange(at as int, at + part.len())[i as int] != part@[i as int]);
            return false;
        }
        i = i + 1;
    }
    assert(part@.take(i as int) =~= part@);
    true
}

/// Whether `needle` occurs in `hay`.
pub fn contains_text(hay: &Vec<char>, needle: &Vec<char>) -> (r: bool)
    ensures
        r == contains_seq(hay@, needle@),
{
    if needle.len() > hay.len() {
        return false;
    }
    let mut i: usize = 0;
    while i <= hay.len() - needle.len()
        invariant
            needle.len() <= hay.len(),
            i <= hay.len() - needle.len() + 1,
            forall|j: int|
                0 <= j < i ==> #[trigger] hay@.subrange(j, j + needle@.len()) != needle@,
        decreases hay.len() - needle.len() + 1 - i,
    {
        if occurs_at(hay, needle, i) {
            return true;
        }
        if i == hay.len() - needle.len() {
            return false;
        }
        i = i + 1;
    }
    false
}

/// Whether `hay` starts with `prefix`.
pub fn starts_with_text(hay: &str, prefix: &str) -> (r: bool)
    ensures
        r == starts_with_seq(hay@, prefix@),
{
    let hay = chars_of(hay);
    let prefix = chars_of(prefix);
    if prefix.len() > hay.len() {
        return false;
    }
    assert(hay@.take(prefix@.len() as int) =~= hay@.subrange(0, prefix@.len() as int));
    occurs_at(&hay, &prefix, 0)
}

// -- Ordering -----------------------------------------------------------------

/// Lexicographic order by code point: `a` comes before `b` or equals it.
pub open spec fn text_le(a: Seq<char>, b: Seq<char>) -> bool
    decreases a.len(),
{
    if a.len() == 0 {
        true
    } else if b.len() == 0 {
        false
    } else if a[0] != b[0] {
        a[0] < b[0]
    } else {
        text_le(a.drop_first(), b.drop_first())
    }
}

/// Whether `a` comes before `b` in lexicographic order, or equals it.
pub fn le_text(a: &str, b: &str) -> (r: bool)
    ensures
        r == text_le(a@, b@),
{
    let left = chars_of(a);
    let right = chars_of(b);
    let mut i: usize = 0;
    assert(left@.skip(0) =~= left@);
    assert(right@.skip(0) =~= right@);
    while i < left.len() && i < right.len()
        invariant
            i <= left.len(),
            i <= right.len(),
            left@ == a@,
            right@ == b@,
            text_le(a@, b@) == text_le(left@.skip(i as int), right@.skip(i as int)),
        decreases left.len() - i,
    {
        if left[i] != right[i] {
            return left[i] < right[i];
        }
        assert(left@.skip(i as int).drop_first() =~= left@.skip(i + 1));
        assert(right@.skip(i as int).drop_first() =~= right@.skip(i + 1));
        i = i + 1;
    }
    i == left.len()
}

/// The order on texts is total and each text stands beside itself.
pub proof fn lemma_text_le_total(a: Seq<char>, b: Seq<char>)
    ensures
        text_le(a, b) || text_le(b, a),
        text_le(a, b) && text_le(b, a) <==> a == b,
    decreases a.len(),
{
    if a.len() > 0 && b.len() > 0 && a[0] == b[0] {
        lemma_text_le_total(a.drop_first(), b.drop_first());
        if a.drop_first() == b.drop_first() {
            assert(a =~= seq![a[0]] + a.drop_first());
            assert(b =~= seq![b[0]] + b.drop_first());
        }
    } else if a.len() == 0 && b.len() == 0 {
        assert(a =~= b);
    }
}

/// The order on texts is transitive.
pub proof fn lemma_text_le_transitive(a: Seq<char>, b: Seq<char>, c: Seq<char>)
    requires
        text_le(a, b),
        text_le(b, c),
    ensures
        text_le(a, c),
    decreases a.len(),
{
    if a.len() > 0 && b.len() > 0 && c.len() > 0 && a[0] == b[0] && b[0] == c[0] {
        lemma_text_le_transitive(a.drop_first(), b.drop_first(), c.drop_first());
    }
}

// -- Laws ---------------------------------------------------------------------

/// The number that a text of decimal digits stands for.
pub open spec fn decimal_value(digits: Seq<char>) -> int
    decreases digits.len(),
{
    if digits.len() == 0 {
        0
    } else {
        10 * decimal_value(digits.drop_last()) + (digits.last() as int - 48)
    }
}

/// A number in decimal reads back as itself, in digits alone and without a
/// leading zero.
pub proof fn law_decimal_reads_back(n: nat)
    ensures
        decimal_value(dec(n)) == n,
        dec(n).len() >= 1,
        forall|i: int| 0 <= i < dec(n).len() ==> '0' <= #[trigger] dec(n)[i] <= '9',
        n >= 10 ==> dec(n)[0] != '0',
        n < 10 ==> dec(n).len() == 1,
    decreases n,
{
    if n < 10 {
        assert(dec(n).drop_last() =~= seq![]);
        assert(decimal_value(dec(n).drop_last()) == 0);
        assert(dec(n).last() == digit(n));
    } else {
        law_decimal_reads_back(n / 10);
        let shorter = dec(n / 10);
        assert(dec(n).drop_last() =~= shorter);
        assert(dec(n).last() == digit(n % 10));
        assert forall|i: int| 0 <= i < dec(n).len() implies '0' <= #[trigger] dec(n)[i]
            <= '9' by {
            if i < shorter.len() {
                assert(dec(n)[i] == shorter[i]);
            }
        }
        assert(dec(n)[0] == shorter[0]);
        if n / 10 < 10 {
            assert(shorter =~= seq![digit(n / 10)]);
        }
    }
}

/// A negative number has a minus sign before its magnitude; any other has none.
pub proof fn law_signed_decimal_reads_back(i: int)
    ensures
        i >= 0 ==> decimal_value(dec_signed(i)) == i && dec_signed(i)[0] != '-',
        i < 0 ==> dec_signed(i)[0] == '-' && decimal_value(dec_signed(i).skip(1)) == -i
            && dec_signed(i).skip(1)[0] != '-',
{
    if i >= 0 {
        law_decimal_reads_back(i as nat);
    } else {
        law_decimal_reads_back((-i) as nat);
        assert(dec_signed(i).skip(1) =~= dec((-i) as nat));
    }
}

/// The value of a hexadecimal digit, of either case.
pub open spec fn hex_value(c: char) -> int {
    if '0' <= c <= '9' {
        c as int - 48
    } else if 'a' <= c <= 'f' {
        c as int - 87
    } else {
        c as int - 55
    }
}

/// The hexadecimal digits of a byte and of a word read back as it, the most
/// significant first, each form in its own case.
pub proof fn law_hex_reads_back(b: u8, w: u16)
    ensures
        hex2(b).len() == 2 && hex2_upper(b).len() == 2,
        16 * hex_value(hex2(b)[0]) + hex_value(hex2(b)[1]) == b,
        16 * hex_value(hex2_upper(b)[0]) + hex_value(hex2_upper(b)[1]) == b,
        hex4(w).len() == 4 && hex4_upper(w).len() == 4,
        4096 * hex_value(hex4(w)[0]) + 256 * hex_value(hex4(w)[1]) + 16 * hex_value(hex4(w)[2])
            + hex_value(hex4(w)[3]) == w,
        4096 * hex_value(hex4_upper(w)[0]) + 256 * hex_value(hex4_upper(w)[1]) + 16 * hex_value(
            hex4_upper(w)[2],
        ) + hex_value(hex4_upper(w)[3]) == w,
        forall|i: int|
            0 <= i < 2 ==> '0' <= #[trigger] hex2(b)[i] <= '9' || 'a' <= hex2(b)[i] <= 'f',
        forall|i: int|
            0 <= i < 2 ==> '0' <= #[trigger] hex2_upper(b)[i] <= '9' || 'A' <= hex2_upper(b)[i]
                <= 'F',
        forall|i: int|
            0 <= i < 4 ==> '0' <= #[trigger] hex4(w)[i] <= '9' || 'a' <= hex4(w)[i] <= 'f',
        forall|i: int|
            0 <= i < 4 ==> '0' <= #[trigger] hex4_upper(w)[i] <= '9' || 'A' <= hex4_upper(w)[i]
                <= 'F',
{
}

/// Joined text takes apart at any seam: what stands left of it, the separator,
/// and what stands right of it. One part is itself, and no part is nothing.
pub proof fn law_join_takes_apart(left: Seq<Seq<char>>, right: Seq<Seq<char>>, sep: Seq<char>)
    ensures
        join(Seq::<Seq<char>>::empty(), sep) == Seq::<char>::empty(),
        left.len() == 1 ==> join(left, sep) == left[0],
        left.len() > 0 && right.len() > 0 ==> join(left + right, sep) == join(left, sep) + sep
            + join(right, sep),
    decreases right.len(),
{
    if left.len() > 0 && right.len() > 0 {
        let all = left + right;
        assert(all.drop_last() =~= left + right.drop_last());
        assert(all.last() == right.last());
        if right.len() == 1 {
            assert(left + right.drop_last() =~= left);
        } else {
            law_join_takes_apart(left, right.drop_last(), sep);
            assert(join(all, sep) =~= join(left, sep) + sep + join(right, sep));
        }
    }
}

/// Whether `part` stands in `s` at `from` with nothing but white space around
/// it.
pub open spec fn is_trim_at(s: Seq<char>, part: Seq<char>, from: int) -> bool {
    &&& 0 <= from && from + part.len() <= s.len()
    &&& forall|i: int| 0 <= i < part.len() ==> #[trigger] part[i] == s[from + i]
    &&& forall|i: int| 0 <= i < from ==> is_white_space(#[trigger] s[i])
    &&& forall|i: int| from + part.len() <= i < s.len() ==> is_white_space(#[trigger] s[i])
}

proof fn lemma_trim_grows(s: Seq<char>, part: Seq<char>, from: int, at_front: bool)
    requires
        s.len() > 0,
        at_front ==> is_white_space(s[0]) && is_trim_at(s.drop_first(), part, from),
        !at_front ==> is_white_space(s.last()) && is_trim_at(s.drop_last(), part, from),
    ensures
        is_trim_at(
            s,
            part,
            if at_front {
                from + 1
            } else {
                from
            },
        ),
{
    if at_front {
        let shorter = s.drop_first();
        assert forall|i: int| 0 <= i < part.len() implies #[trigger] part[i] == s[from + 1 + i] by {
            assert(part[i] == shorter[from + i]);
        }
        assert forall|i: int| 0 <= i < from + 1 implies is_white_space(#[trigger] s[i]) by {
            if i > 0 {
                assert(is_white_space(shorter[i - 1]));
            }
        }
        assert forall|i: int| from + 1 + part.len() <= i < s.len() implies is_white_space(
            #[trigger] s[i],
        ) by {
            assert(is_white_space(shorter[i - 1]));
        }
    } else {
        let shorter = s.drop_last();
        assert forall|i: int| 0 <= i < part.len() implies #[trigger] part[i] == s[from + i] by {
            assert(part[i] == shorter[from + i]);
        }
        assert forall|i: int| 0 <= i < from implies is_white_space(#[trigger] s[i]) by {
            assert(is_white_space(shorter[i]));
        }
        assert forall|i: int| from + part.len() <= i < s.len() implies is_white_space(
            #[trigger] s[i],
        ) by {
            if i < s.len() - 1 {
                assert(is_white_space(shorter[i]));
            }
        }
    }
}

proof fn lemma_trim_stands(s: Seq<char>) -> (from: int)
    ensures
        is_trim_at(s, trimmed(s), from),
    decreases s.len(),
{
    if s.len() == 0 {
        0
    } else if is_white_space(s[0]) {
        let from = lemma_trim_stands(s.drop_first());
        lemma_trim_grows(s, trimmed(s), from, true);
        from + 1
    } else if is_white_space(s.last()) {
        let from = lemma_trim_stands(s.drop_last());
        lemma_trim_grows(s, trimmed(s), from, false);
        from
    } else {
        0
    }
}

proof fn lemma_trim_ends(s: Seq<char>)
    ensures
        trimmed(s).len() > 0 ==> !is_white_space(trimmed(s)[0]) && !is_white_space(
            trimmed(s).last(),
        ),
    decreases s.len(),
{
    if s.len() == 0 {
    } else if is_white_space(s[0]) {
        lemma_trim_ends(s.drop_first());
    } else if is_white_space(s.last()) {
        lemma_trim_ends(s.drop_last());
    }
}

/// Trimming leaves the part between the white space at either end: it starts
/// and ends in something else, and nothing else is lost. Trimming again changes
/// nothing.
pub proof fn law_trimming_takes_the_ends(s: Seq<char>)
    ensures
        trimmed(s).len() > 0 ==> !is_white_space(trimmed(s)[0]) && !is_white_space(
            trimmed(s).last(),
        ),
        exists|from: int| #[trigger] is_trim_at(s, trimmed(s), from),
        trimmed(trimmed(s)) == trimmed(s),
{
    lemma_trim_ends(s);
    let from = lemma_trim_stands(s);
    assert(is_trim_at(s, trimmed(s), from));
}

/// Raising and lowering a letter moves it between the two alphabets, and leaves
/// every other character alone.
pub proof fn law_ascii_case(c: char)
    ensures
        'a' <= c <= 'z' ==> ascii_upper(c) as int == c as int - 32 && ascii_lower(c) == c,
        'A' <= c <= 'Z' ==> ascii_lower(c) as int == c as int + 32 && ascii_upper(c) == c,
        !('a' <= c <= 'z') && !('A' <= c <= 'Z') ==> ascii_upper(c) == c && ascii_lower(c) == c,
{
}

/// Taking the spaces out goes piece by piece, takes nothing else, and leaves
/// none.
pub proof fn law_spaces_are_taken_out(left: Seq<char>, right: Seq<char>, c: char)
    ensures
        without_spaces(left + right) == without_spaces(left) + without_spaces(right),
        c != ' ' ==> without_spaces(seq![c]) == seq![c],
        without_spaces(seq![' ']) == Seq::<char>::empty(),
        forall|i: int| 0 <= i < without_spaces(left).len() ==> #[trigger] without_spaces(left)[i]
            != ' ',
    decreases left.len() + right.len(),
{
    reveal_with_fuel(without_spaces, 2);
    assert(seq![c].drop_last() =~= seq![]);
    assert(seq![' '].drop_last() =~= seq![]);
    if right.len() > 0 {
        law_spaces_are_taken_out(left, right.drop_last(), c);
        assert((left + right).drop_last() =~= left + right.drop_last());
        assert(without_spaces(left + right) =~= without_spaces(left) + without_spaces(right));
    } else {
        assert(left + right =~= left);
        if left.len() > 0 {
            law_spaces_are_taken_out(left.drop_last(), right, c);
        }
    }
}

/// The order of texts is decided by the first character in which they differ;
/// where one ends there, it comes first.
pub proof fn law_first_difference_decides(
    common: Seq<char>,
    a: char,
    b: char,
    x: Seq<char>,
    y: Seq<char>,
)
    ensures
        a < b ==> text_le(common.push(a) + x, common.push(b) + y) && !text_le(
            common.push(b) + y,
            common.push(a) + x,
        ),
        text_le(common, common + x),
        x.len() > 0 ==> !text_le(common + x, common),
    decreases common.len(),
{
    let p = common.push(a) + x;
    let q = common.push(b) + y;
    let r = common + x;
    if common.len() > 0 {
        let rest = common.drop_first();
        law_first_difference_decides(rest, a, b, x, y);
        assert(p.drop_first() =~= rest.push(a) + x);
        assert(q.drop_first() =~= rest.push(b) + y);
        assert(r.drop_first() =~= rest + x);
        assert(p[0] == common[0] && q[0] == common[0] && r[0] == common[0]);
    } else {
        assert(p[0] == a && q[0] == b);
    }
}

/// A text contains another where its characters stand in a row somewhere in it,
/// and starts with it where they stand at the front.
pub proof fn law_occurrences(before: Seq<char>, part: Seq<char>, after: Seq<char>)
    ensures
        contains_seq(before + part + after, part),
        starts_with_seq(part + after, part),
        starts_with_seq(after, part) ==> part.len() <= after.len() && forall|i: int|
            0 <= i < part.len() ==> after[i] == #[trigger] part[i],
        contains_seq(after, part) ==> exists|at: int|
            0 <= at && at + part.len() <= after.len() && #[trigger] stands_at(after, part, at),
{
    if contains_seq(after, part) {
        let at = choose|at: int|
            0 <= at && at + part.len() <= after.len() && #[trigger] after.subrange(
                at,
                at + part.len(),
            ) == part;
        assert forall|i: int| 0 <= i < part.len() implies after[at + i] == #[trigger] part[i] by {
            assert(after.subrange(at, at + part.len())[i] == after[at + i]);
        }
        assert(stands_at(after, part, at));
    }
    let all = before + part + after;
    let n = before.len() as int;
    assert(all.subrange(n, n + part.len()) =~= part);
    assert((part + after).take(part.len() as int) =~= part);
    if starts_with_seq(after, part) {
        assert forall|i: int| 0 <= i < part.len() implies after[i] == #[trigger] part[i] by {
            assert(after.take(part.len() as int)[i] == after[i]);
        }
    }
}

/// Whether the characters of `part` stand in `s` from `at` on.
pub open spec fn stands_at(s: Seq<char>, part: Seq<char>, at: int) -> bool {
    forall|i: int| 0 <= i < part.len() ==> s[at + i] == #[trigger] part[i]
}

/// The contents of strings are those of each, in order.
pub proof fn law_texts_in_order(parts: Seq<String>, i: int)
    requires
        0 <= i < parts.len(),
    ensures
        texts(parts).len() == parts.len(),
        texts(parts)[i] == parts[i]@,
{
}

} // verus!
