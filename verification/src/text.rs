//! Text helpers: byte lengths, prefixes, ordering and number formatting.

use vstd::prelude::*;
use vstd::utf8::{encode_scalar, encode_utf8, encode_utf8_decode_utf8};

verus! {

/// `String::push` appends the given character to the end of the string.
pub assume_specification[ String::push ](s: &mut String, c: char)
    ensures
        final(s)@ == old(s)@.push(c),
;

/// The characters of `s`, one by one.
pub fn chars_of(s: &str) -> (chars: Vec<char>)
    ensures
        chars@ == s@,
{
    let mut chars: Vec<char> = Vec::new();
    for c in it: s.chars()
        invariant
            it.seq() == s@,
            chars@ == s@.take(it.index() as int),
    {
        chars.push(c);
        assert(s@.take(it.index() as int).push(c) =~= s@.take(it.index() as int + 1));
    }
    assert(s@.take(s@.len() as int) =~= s@);
    chars
}

/// The characters `chars[from..to]` as a string.
pub fn string_of(chars: &Vec<char>, from: usize, to: usize) -> (s: String)
    requires
        from <= to <= chars.len(),
    ensures
        s@ == chars@.subrange(from as int, to as int),
{
    let mut s = String::new();
    let mut i: usize = from;
    while i < to
        invariant
            from <= i <= to <= chars.len(),
            s@ == chars@.subrange(from as int, i as int),
        decreases to - i,
    {
        s.push(chars[i]);
        i += 1;
        assert(chars@.subrange(from as int, i - 1).push(chars@[i - 1]) =~= chars@.subrange(
            from as int,
            i as int,
        ));
    }
    s
}

/// Two texts with the same bytes are the same text.
pub proof fn lemma_bytes_determine_text(a: Seq<char>, b: Seq<char>)
    requires
        encode_utf8(a) == encode_utf8(b),
    ensures
        a == b,
{
    encode_utf8_decode_utf8(a);
    encode_utf8_decode_utf8(b);
}

/// Whether the two texts are equal.
pub fn same_text(a: &str, b: &str) -> (same: bool)
    ensures
        same == (a@ == b@),
{
    let x = a.as_bytes();
    let y = b.as_bytes();
    if x.len() != y.len() {
        return false;
    }
    let mut i: usize = 0;
    while i < x.len()
        invariant
            x@ == encode_utf8(a@),
            y@ == encode_utf8(b@),
            x@.len() == y@.len(),
            i <= x@.len(),
            forall|k: int| 0 <= k < i ==> x@[k] == y@[k],
        decreases x@.len() - i,
    {
        if x[i] != y[i] {
            return false;
        }
        i += 1;
    }
    assert(x@ =~= y@);
    proof {
        lemma_bytes_determine_text(a@, b@);
    }
    true
}

/// Whether `text` starts with `prefix`.
pub fn starts_with(text: &str, prefix: &str) -> (yes: bool)
    ensures
        yes == prefix@.is_prefix_of(text@),
{
    let t = chars_of(text);
    let p = chars_of(prefix);
    if p.len() > t.len() {
        return false;
    }
    let mut i: usize = 0;
    while i < p.len()
        invariant
            t@ == text@,
            p@ == prefix@,
            i <= p@.len() <= t@.len(),
            forall|k: int| 0 <= k < i ==> p@[k] == t@[k],
        decreases p@.len() - i,
    {
        if p[i] != t[i] {
            assert(t@.subrange(0, p@.len() as int)[i as int] == t@[i as int]);
            return false;
        }
        i += 1;
    }
    assert(p@ =~= t@.subrange(0, p@.len() as int));
    true
}

/// Appending one character appends its encoding.
pub proof fn lemma_encode_push(s: Seq<char>, c: char)
    ensures
        encode_utf8(s.push(c)) == encode_utf8(s) + encode_scalar(c as u32),
    decreases s.len(),
{
    if s.len() == 0 {
        reveal_with_fuel(encode_utf8, 2);
        assert(s.push(c).drop_first() =~= Seq::<char>::empty());
        assert(encode_utf8(s.push(c)) =~= encode_scalar(c as u32));
    } else {
        let rest = s.drop_first();
        assert(s.push(c).drop_first() =~= rest.push(c));
        lemma_encode_push(rest, c);
        assert(encode_utf8(s.push(c)) =~= encode_utf8(s) + encode_scalar(c as u32));
    }
}

/// The number of bytes that one character takes in UTF-8.
pub fn char_width(c: char) -> (width: usize)
    ensures
        width == encode_scalar(c as u32).len(),
        1 <= width <= 4,
{
    let code: u32 = c as u32;
    if code < 0x80 {
        1
    } else if code < 0x800 {
        2
    } else if code < 0x10000 {
        3
    } else {
        4
    }
}

/// `text` without as many of its last characters as it takes to fit into `max`
/// bytes.
pub open spec fn clipped(text: Seq<char>, max: nat) -> Seq<char>
    decreases text.len(),
{
    if text.len() == 0 || encode_utf8(text).len() <= max {
        text
    } else {
        clipped(text.drop_last(), max)
    }
}

/// A longer prefix takes at least as many bytes.
proof fn lemma_prefix_bytes(s: Seq<char>, i: int, j: int)
    requires
        0 <= i <= j <= s.len(),
    ensures
        encode_utf8(s.take(i)).len() <= encode_utf8(s.take(j)).len(),
    decreases j - i,
{
    if i < j {
        lemma_prefix_bytes(s, i, j - 1);
        assert(s.take(j) =~= s.take(j - 1).push(s[j - 1]));
        lemma_encode_push(s.take(j - 1), s[j - 1]);
    }
}

/// Where the first `k` characters fit and one more does not, those are what
/// clipping keeps.
proof fn lemma_clipped_at(text: Seq<char>, max: nat, k: int)
    requires
        0 <= k <= text.len(),
        encode_utf8(text.take(k)).len() <= max,
        k < text.len() ==> encode_utf8(text.take(k + 1)).len() > max,
    ensures
        clipped(text, max) == text.take(k),
    decreases text.len(),
{
    assert(text.take(text.len() as int) =~= text);
    if k < text.len() {
        lemma_prefix_bytes(text, k + 1, text.len() as int);
        let shorter = text.drop_last();
        assert(shorter.take(k) =~= text.take(k));
        if k < shorter.len() {
            assert(shorter.take(k + 1) =~= text.take(k + 1));
        }
        lemma_clipped_at(shorter, max, k);
    }
}

/// Clipping keeps a prefix that fits, and no longer prefix fits.
pub proof fn law_clipped_is_longest(text: Seq<char>, max: nat, longer: Seq<char>)
    ensures
        clipped(text, max).is_prefix_of(text),
        encode_utf8(clipped(text, max)).len() <= max,
        longer.is_prefix_of(text) && encode_utf8(longer).len() <= max ==> longer.len() <= clipped(
            text,
            max,
        ).len(),
    decreases text.len(),
{
    assert(text.take(text.len() as int) =~= text);
    if text.len() == 0 {
        assert(encode_utf8(text) =~= Seq::empty());
    } else if encode_utf8(text).len() > max {
        let shorter = text.drop_last();
        law_clipped_is_longest(shorter, max, longer);
        assert(clipped(text, max) =~= text.take(clipped(text, max).len() as int));
        if longer.is_prefix_of(text) && longer.len() < text.len() {
            assert(longer =~= shorter.take(longer.len() as int));
        } else if longer.is_prefix_of(text) {
            assert(longer =~= text);
        }
    }
}

/// The longest prefix of `text` that ends at a character boundary and takes at
/// most `max` bytes.
pub fn take_bytes_at_char_boundary(text: &str, max: usize) -> (kept: String)
    ensures
        kept@ == clipped(text@, max as nat),
{
    let chars = chars_of(text);
    let mut used: usize = 0;
    let mut i: usize = 0;
    assert(encode_utf8(chars@.take(0)) =~= Seq::empty());
    while i < chars.len()
        invariant
            chars@ == text@,
            i <= chars@.len(),
            used == encode_utf8(chars@.take(i as int)).len(),
            used <= max,
        ensures
            i <= chars@.len(),
            encode_utf8(chars@.take(i as int)).len() <= max,
            i < chars@.len() ==> encode_utf8(chars@.take(i + 1)).len() > max,
        decreases chars@.len() - i,
    {
        let width = char_width(chars[i]);
        proof {
            assert(chars@.take(i + 1) =~= chars@.take(i as int).push(chars@[i as int]));
            lemma_encode_push(chars@.take(i as int), chars@[i as int]);
        }
        if width > max - used {
            break;
        }
        used += width;
        i += 1;
    }
    proof {
        lemma_clipped_at(text@, max as nat, i as int);
        assert(chars@.subrange(0, i as int) =~= chars@.take(i as int));
    }
    string_of(&chars, 0, i)
}

/// The text with every character `from` replaced by `to`.
pub open spec fn replaced(text: Seq<char>, from: char, to: char) -> Seq<char> {
    text.map_values(|c: char| if c == from { to } else { c })
}

/// Replaces every character `from` of `text` by `to`.
pub fn replace_char(text: &str, from: char, to: char) -> (result: String)
    ensures
        result@ == replaced(text@, from, to),
{
    let chars = chars_of(text);
    let mut result = String::new();
    let mut i: usize = 0;
    while i < chars.len()
        invariant
            chars@ == text@,
            i <= chars@.len(),
            result@ == replaced(text@.take(i as int), from, to),
        decreases chars@.len() - i,
    {
        let c = chars[i];
        result.push(if c == from { to } else { c });
        i += 1;
        assert(result@ =~= replaced(text@.take(i as int), from, to));
    }
    assert(text@.take(i as int) =~= text@);
    result
}

/// The decimal digit of `d`, for `d` below ten.
pub open spec fn digit(d: nat) -> char {
    if d == 0 { '0' } else if d == 1 { '1' } else if d == 2 { '2' } else if d == 3 { '3' }
    else if d == 4 { '4' } else if d == 5 { '5' } else if d == 6 { '6' } else if d == 7 { '7' }
    else if d == 8 { '8' } else { '9' }
}

/// `n` written in decimal, without leading zeros.
pub open spec fn decimal(n: nat) -> Seq<char>
    decreases n,
{
    if n < 10 {
        seq![digit(n)]
    } else {
        decimal(n / 10).push(digit(n % 10))
    }
}

fn digit_char(d: usize) -> (c: char)
    requires
        d < 10,
    ensures
        c == digit(d as nat),
{
    match d {
        0 => '0',
        1 => '1',
        2 => '2',
        3 => '3',
        4 => '4',
        5 => '5',
        6 => '6',
        7 => '7',
        8 => '8',
        _ => '9',
    }
}

/// Writes `n` in decimal.
pub fn decimal_text(n: usize) -> (text: String)
    ensures
        text@ == decimal(n as nat),
    decreases n,
{
    if n < 10 {
        let mut text = String::new();
        text.push(digit_char(n));
        assert(text@ =~= seq![digit(n as nat)]);
        text
    } else {
        let mut text = decimal_text(n / 10);
        text.push(digit_char(n % 10));
        text
    }
}

/// The texts of the given strings.
pub open spec fn texts(strings: Seq<String>) -> Seq<Seq<char>> {
    strings.map_values(|s: String| s@)
}

/// The lines joined by single newlines.
pub open spec fn joined_lines(lines: Seq<String>) -> Seq<char>
    decreases lines.len(),
{
    if lines.len() == 0 {
        Seq::empty()
    } else if lines.len() == 1 {
        lines[0]@
    } else {
        joined_lines(lines.drop_last()).push('\n') + lines.last()@
    }
}

/// Joins the lines by single newlines.
pub fn join_lines(lines: &Vec<String>) -> (text: String)
    ensures
        text@ == joined_lines(lines@),
{
    let mut text = String::new();
    let mut i: usize = 0;
    while i < lines.len()
        invariant
            i <= lines@.len(),
            text@ == joined_lines(lines@.take(i as int)),
        decreases lines@.len() - i,
    {
        if i > 0 {
            text.push('\n');
        }
        text.append(lines[i].as_str());
        assert(lines@.take(i + 1).drop_last() =~= lines@.take(i as int));
        assert(text@ =~= joined_lines(lines@.take(i + 1)));
        i += 1;
    }
    assert(lines@.take(i as int) =~= lines@);
    text
}

/// Lines with the same texts are joined to the same text.
pub proof fn lemma_joined_lines_by_text(a: Seq<String>, b: Seq<String>)
    requires
        texts(a) == texts(b),
    ensures
        joined_lines(a) == joined_lines(b),
    decreases a.len(),
{
    assert(texts(a).len() == a.len() && texts(b).len() == b.len());
    if a.len() > 0 {
        let last = a.len() - 1;
        assert(texts(a)[last] == a[last]@ && texts(b)[last] == b[last]@);
        assert(texts(a.drop_last()) =~= texts(a).drop_last());
        assert(texts(b.drop_last()) =~= texts(b).drop_last());
        lemma_joined_lines_by_text(a.drop_last(), b.drop_last());
    }
}

/// What is kept of a text that has to fit is the longest beginning of it that does:
/// one more character would not.
pub proof fn law_kept_text_is_the_longest_that_fits(text: &str, max: usize, kept: String)
    requires
        call_ensures(take_bytes_at_char_boundary, (text, max), kept),
    ensures
        kept@.is_prefix_of(text@),
        encode_utf8(kept@).len() <= max,
        kept@.len() < text@.len() ==> encode_utf8(text@.take(kept@.len() as int + 1)).len() > max,
{
    law_clipped_is_longest(text@, max as nat, text@.take(kept@.len() as int + 1));
    if kept@.len() < text@.len() {
        let longer = text@.take(kept@.len() as int + 1);
        assert(longer.is_prefix_of(text@)) by {
            assert(longer =~= text@.subrange(0, longer.len() as int));
        }
    }
}

/// Replacing one character by another touches every place of it and nothing else.
pub proof fn law_only_the_character_is_replaced(text: &str, from: char, to: char, result: String)
    requires
        call_ensures(replace_char, (text, from, to), result),
    ensures
        result@.len() == text@.len(),
        forall|i: int|
            #![trigger result@[i]]
            0 <= i < text@.len() ==> result@[i] == if text@[i] == from {
                to
            } else {
                text@[i]
            },
{
}

/// The number that a text of decimal digits stands for.
pub open spec fn number_of(digits: Seq<char>) -> int
    decreases digits.len(),
{
    if digits.len() == 0 {
        0
    } else {
        number_of(digits.drop_last()) * 10 + (digits.last() as int - '0' as int)
    }
}

proof fn lemma_decimal_reads_back(n: nat)
    ensures
        number_of(decimal(n)) == n,
        decimal(n).len() >= 1,
        n > 0 ==> decimal(n)[0] != '0',
        n == 0 ==> decimal(n).len() == 1,
        forall|i: int| 0 <= i < decimal(n).len() ==> '0' <= #[trigger] decimal(n)[i] <= '9',
    decreases n,
{
    if n < 10 {
        reveal_with_fuel(number_of, 2);
        assert(decimal(n).drop_last() =~= Seq::empty());
    } else {
        lemma_decimal_reads_back(n / 10);
        assert(decimal(n).drop_last() =~= decimal(n / 10));
        assert forall|i: int| 0 <= i < decimal(n).len() implies '0' <= #[trigger] decimal(n)[i]
            <= '9' by {
            if i < decimal(n).len() - 1 {
                assert(decimal(n)[i] == decimal(n / 10)[i]);
            }
        }
    }
}

/// A number that was written reads back as itself. It is written in digits alone,
/// and begins with a zero only where it is zero.
pub proof fn law_written_number_reads_back(n: usize, text: String)
    requires
        call_ensures(decimal_text, (n,), text),
    ensures
        number_of(text@) == n,
        forall|i: int| 0 <= i < text@.len() ==> '0' <= #[trigger] text@[i] <= '9',
        text@.len() >= 1,
        text@.len() > 1 ==> text@[0] != '0',
{
    lemma_decimal_reads_back(n as nat);
}

/// One more line is put behind those before it, with one newline in between. A
/// single line stands as it is, and no lines make no text.
pub proof fn law_lines_are_joined_one_by_one(
    lines: Vec<String>,
    line: String,
    more: Vec<String>,
    text: String,
    longer: String,
)
    requires
        call_ensures(join_lines, (&lines,), text),
        call_ensures(join_lines, (&more,), longer),
        more@ == lines@.push(line),
    ensures
        lines@.len() == 0 ==> text@.len() == 0 && longer@ == line@,
        lines@.len() > 0 ==> longer@ == text@ + seq!['\n'] + line@,
{
    assert(more@.drop_last() =~= lines@);
    assert(more@.last() == line);
    if lines@.len() == 0 {
        assert(more@[0] == line);
    } else {
        assert(longer@ =~= text@ + seq!['\n'] + line@);
    }
}

/// Texts are the same exactly if they have the same characters in the same places.
/// A text starts with another exactly if the characters of that one stand in its
/// first places.
pub proof fn law_texts_are_told_apart_by_their_characters(
    a: &str,
    b: &str,
    same: bool,
    starts: bool,
)
    requires
        call_ensures(same_text, (a, b), same),
        call_ensures(starts_with, (a, b), starts),
    ensures
        same <==> a@.len() == b@.len() && forall|i: int|
            0 <= i < a@.len() ==> #[trigger] a@[i] == b@[i],
        starts <==> b@.len() <= a@.len() && forall|i: int|
            0 <= i < b@.len() ==> a@[i] == #[trigger] b@[i],
        same ==> starts,
{
    if a@.len() == b@.len() && (forall|i: int| 0 <= i < a@.len() ==> #[trigger] a@[i] == b@[i]) {
        assert(a@ =~= b@);
    }
    if b@.len() <= a@.len() && (forall|i: int| 0 <= i < b@.len() ==> a@[i] == #[trigger] b@[i]) {
        assert(b@ =~= a@.subrange(0, b@.len() as int));
    }
    if starts {
        assert forall|i: int| 0 <= i < b@.len() implies a@[i] == #[trigger] b@[i] by {
            assert(a@.subrange(0, b@.len() as int)[i] == a@[i]);
        }
    }
}

/// The characters of a text put together again are the text.
pub proof fn law_characters_make_up_the_text(
    text: &str,
    chars: Vec<char>,
    from: usize,
    to: usize,
    part: String,
)
    requires
        call_ensures(chars_of, (text,), chars),
        from <= to <= chars@.len(),
        call_ensures(string_of, (&chars, from, to), part),
    ensures
        chars@.len() == text@.len(),
        part@.len() == to - from,
        forall|i: int| #![trigger part@[i]] 0 <= i < to - from ==> part@[i] == text@[from + i],
        from == 0 && to == chars@.len() ==> part@ == text@,
{
    if from == 0 && to == chars@.len() {
        assert(part@ =~= text@);
    }
}

/// A character takes as many bytes as the text that it alone makes up.
pub proof fn law_width_of_a_character(c: char, width: usize)
    requires
        call_ensures(char_width, (c,), width),
    ensures
        width == encode_utf8(seq![c]).len(),
{
    lemma_encode_push(Seq::<char>::empty(), c);
    assert(Seq::<char>::empty().push(c) =~= seq![c]);
    assert(encode_utf8(Seq::<char>::empty()) =~= Seq::<u8>::empty());
}

} // verus!
