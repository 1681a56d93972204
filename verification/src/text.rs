//! Character-level helpers shared by every part of the coordinator.

use crate::candidate::strings_view;
use vstd::prelude::*;
use vstd::string::*;
use vstd::utf8::*;

verus! {

/// `String::push` of std: the character goes behind the ones already there.
pub assume_specification[ String::push ](s: &mut String, c: char)
    ensures
        final(s)@ == old(s)@.push(c),
;

/// The characters of `s`, in order.
pub fn chars_of(s: &str) -> (v: Vec<char>)
    ensures
        v@ == s@,
{
    let mut v: Vec<char> = Vec::new();
    for c in it: s.chars()
        invariant
            v@ == s@.take(it.index() as int),
            it.seq() == s@,
    {
        assert(s@.take(it.index() as int).push(c) =~= s@.take(it.index() as int + 1));
        v.push(c);
    }
    assert(s@.take(s@.len() as int) =~= s@);
    v
}

/// The string made of characters `from` to `to` of `v`.
pub fn string_of_range(v: &Vec<char>, from: usize, to: usize) -> (s: String)
    requires
        from <= to <= v@.len(),
    ensures
        s@ == v@.subrange(from as int, to as int),
{
    let mut s = String::new();
    let mut i: usize = from;
    while i < to
        invariant
            from <= i <= to <= v@.len(),
            s@ == v@.subrange(from as int, i as int),
        decreases to - i,
    {
        s.push(v[i]);
        assert(v@.subrange(from as int, i as int).push(v@[i as int]) =~= v@.subrange(
            from as int,
            i as int + 1,
        ));
        i = i + 1;
    }
    s
}

/// The string made of the characters of `v`.
pub fn string_of(v: &Vec<char>) -> (s: String)
    ensures
        s@ == v@,
{
    let s = string_of_range(v, 0, v.len());
    assert(v@.subrange(0, v@.len() as int) =~= v@);
    s
}

/// Whether two strings hold the same characters.
pub fn same(a: &str, b: &str) -> (r: bool)
    ensures
        r == (a@ == b@),
{
    let x: String = a.to_owned();
    let y: String = b.to_owned();
    x == y
}

/// `a` followed by `b`.
pub fn joined(a: &str, b: &str) -> (s: String)
    ensures
        s@ == a@ + b@,
{
    let mut s: String = a.to_owned();
    s.append(b);
    s
}

/// Number of bytes `s` takes.
pub open spec fn byte_size(s: Seq<char>) -> usize {
    encode_utf8(s).len() as usize
}

/// Number of characters of `s`.
pub fn char_count(s: &str) -> (n: usize)
    ensures
        n == s@.len(),
{
    s.unicode_len()
}

/// Whether `c` is white space.
pub open spec fn is_white(c: char) -> bool {
    let u = c as u32;
    ||| 0x9 <= u <= 0xD
    ||| u == 0x20
    ||| u == 0x85
    ||| u == 0xA0
    ||| u == 0x1680
    ||| 0x2000 <= u <= 0x200A
    ||| u == 0x2028
    ||| u == 0x2029
    ||| u == 0x202F
    ||| u == 0x205F
    ||| u == 0x3000
}

/// Whether `c` is white space.
pub fn is_white_char(c: char) -> (r: bool)
    ensures
        r == is_white(c),
{
    let u: u32 = c as u32;
    (0x9 <= u && u <= 0xD) || u == 0x20 || u == 0x85 || u == 0xA0 || u == 0x1680 || (0x2000 <= u
        && u <= 0x200A) || u == 0x2028 || u == 0x2029 || u == 0x202F || u == 0x205F || u == 0x3000
}

/// `s` without the white space at its front.
pub open spec fn trimmed_front(s: Seq<char>) -> Seq<char>
    decreases s.len(),
{
    if s.len() > 0 && is_white(s[0]) {
        trimmed_front(s.drop_first())
    } else {
        s
    }
}

/// `s` without the white space at its back.
pub open spec fn trimmed_back(s: Seq<char>) -> Seq<char>
    decreases s.len(),
{
    if s.len() > 0 && is_white(s.last()) {
        trimmed_back(s.drop_last())
    } else {
        s
    }
}

/// `s` without the white space at either end.
pub open spec fn trimmed(s: Seq<char>) -> Seq<char> {
    trimmed_back(trimmed_front(s))
}

/// `s` without the white space at either end.
pub fn trim(s: &str) -> (r: String)
    ensures
        r@ == trimmed(s@),
{
    let v = chars_of(s);
    let mut a: usize = 0;
    assert(v@.skip(0) =~= v@);
    while a < v.len() && is_white_char(v[a])
        invariant
            a <= v.len(),
            v@ == s@,
            trimmed_front(s@) == trimmed_front(v@.skip(a as int)),
        ensures
            a <= v.len(),
            trimmed_front(s@) == v@.skip(a as int),
        decreases v.len() - a,
    {
        assert(v@.skip(a as int).drop_first() =~= v@.skip(a as int + 1));
        a = a + 1;
    }
    let mut b: usize = v.len();
    let ghost front = v@.skip(a as int);
    assert(v@.subrange(a as int, b as int) =~= front);
    while b > a && is_white_char(v[b - 1])
        invariant
            a <= b <= v.len(),
            trimmed_back(front) == trimmed_back(v@.subrange(a as int, b as int)),
        ensures
            a <= b <= v.len(),
            trimmed_back(front) == v@.subrange(a as int, b as int),
        decreases b,
    {
        assert(v@.subrange(a as int, b as int).drop_last() =~= v@.subrange(a as int, b - 1));
        b = b - 1;
    }
    string_of_range(&v, a, b)
}

/// Whether `c` occurs in `s`.
pub fn has_char(s: &str, c: char) -> (r: bool)
    ensures
        r == s@.contains(c),
{
    let v = chars_of(s);
    let mut i: usize = 0;
    while i < v.len()
        invariant
            i <= v.len(),
            v@ == s@,
            forall|k: int| 0 <= k < i ==> v@[k] != c,
        decreases v.len() - i,
    {
        if v[i] == c {
            assert(s@[i as int] == c);
            return true;
        }
        i = i + 1;
    }
    false
}

/// Whether `s` holds white space.
pub open spec fn holds_white(s: Seq<char>) -> bool {
    exists|i: int| 0 <= i < s.len() && is_white(#[trigger] s[i])
}

/// Whether `s` holds white space.
pub fn has_white(s: &str) -> (r: bool)
    ensures
        r == holds_white(s@),
{
    let v = chars_of(s);
    let mut i: usize = 0;
    while i < v.len()
        invariant
            i <= v.len(),
            v@ == s@,
            forall|k: int| 0 <= k < i ==> !is_white(#[trigger] v@[k]),
        decreases v.len() - i,
    {
        if is_white_char(v[i]) {
            assert(is_white(s@[i as int]));
            return true;
        }
        i = i + 1;
    }
    false
}

/// Whether `c` is an ideograph words may be made of: the unified ideographs, the
/// first extension, the compatibility ideographs, and planes 2 and 3. Punctuation
/// and radicals are left out.
pub open spec fn han(c: char) -> bool {
    let u = c as u32;
    ||| 0x4E00 <= u <= 0x9FFF
    ||| 0x3400 <= u <= 0x4DBF
    ||| 0xF900 <= u <= 0xFAFF
    ||| 0x20000 <= u <= 0x3FFFF
}

/// Whether `c` is an ideograph words may be made of.
pub fn is_han(c: char) -> (r: bool)
    ensures
        r == han(c),
{
    let u: u32 = c as u32;
    (0x4E00 <= u && u <= 0x9FFF) || (0x3400 <= u && u <= 0x4DBF) || (0xF900 <= u && u <= 0xFAFF)
        || (0x20000 <= u && u <= 0x3FFFF)
}

/// Whether every character of `s` is an ideograph.
pub open spec fn all_han_chars(s: Seq<char>) -> bool {
    forall|i: int| 0 <= i < s.len() ==> han(#[trigger] s[i])
}

/// Whether every character of `s` is an ideograph.
pub fn all_han(s: &str) -> (r: bool)
    ensures
        r == all_han_chars(s@),
{
    let v = chars_of(s);
    let mut i: usize = 0;
    while i < v.len()
        invariant
            i <= v.len(),
            v@ == s@,
            forall|k: int| 0 <= k < i ==> han(#[trigger] v@[k]),
        decreases v.len() - i,
    {
        if !is_han(v[i]) {
            assert(!han(s@[i as int]));
            return false;
        }
        i = i + 1;
    }
    true
}

/// Whether `c` is one of the 26 letters, in either case.
pub open spec fn ascii_letter(c: char) -> bool {
    ('a' as u32 <= c as u32 <= 'z' as u32) || ('A' as u32 <= c as u32 <= 'Z' as u32)
}

/// Whether `c` is one of the 26 letters, in either case.
pub fn is_ascii_letter(c: char) -> (r: bool)
    ensures
        r == ascii_letter(c),
{
    ('a' <= c && c <= 'z') || ('A' <= c && c <= 'Z')
}

/// `c` with a capital letter made small.
pub open spec fn lowered(c: char) -> char {
    if 'A' as u32 <= c as u32 <= 'Z' as u32 {
        (c as u32 + 32) as u8 as char
    } else {
        c
    }
}

/// `c` with a capital letter made small.
pub fn lower_char(c: char) -> (r: char)
    ensures
        r == lowered(c),
{
    if 'A' <= c && c <= 'Z' {
        ((c as u32 + 32) as u8) as char
    } else {
        c
    }
}

/// `s` with every capital letter made small.
pub open spec fn lowered_text(s: Seq<char>) -> Seq<char> {
    s.map_values(|c: char| lowered(c))
}

/// `s` with every capital letter made small.
pub fn lower_text(s: &str) -> (r: String)
    ensures
        r@ == lowered_text(s@),
{
    let v = chars_of(s);
    let mut out = String::new();
    let mut i: usize = 0;
    while i < v.len()
        invariant
            i <= v.len(),
            v@ == s@,
            out@ == lowered_text(s@.take(i as int)),
        decreases v.len() - i,
    {
        out.push(lower_char(v[i]));
        assert(lowered_text(s@.take(i as int + 1)) =~= lowered_text(s@.take(i as int)).push(
            lowered(s@[i as int]),
        ));
        i = i + 1;
    }
    assert(s@.take(s@.len() as int) =~= s@);
    out
}

/// How many UTF-16 units `s` takes: two for a character outside plane 0.
pub open spec fn utf16_len(s: Seq<char>) -> nat
    decreases s.len(),
{
    if s.len() == 0 {
        0
    } else {
        utf16_len(s.drop_last()) + (if s.last() as u32 >= 0x10000 { 2nat } else { 1nat })
    }
}

proof fn lemma_utf16_len_bound(s: Seq<char>)
    ensures
        s.len() <= utf16_len(s) <= 2 * s.len(),
    decreases s.len(),
{
    if s.len() > 0 {
        lemma_utf16_len_bound(s.drop_last());
    }
}

/// How many UTF-16 units `s` takes.
pub fn utf16_total(s: &str) -> (n: u128)
    ensures
        n == utf16_len(s@),
{
    let v = chars_of(s);
    let mut n: u128 = 0;
    let mut i: usize = 0;
    while i < v.len()
        invariant
            i <= v.len(),
            v@ == s@,
            n == utf16_len(s@.take(i as int)),
        decreases v.len() - i,
    {
        proof {
            assert(s@.take(i as int + 1).drop_last() =~= s@.take(i as int));
            lemma_utf16_len_bound(s@.take(i as int));
        }
        n = n + (if v[i] as u32 >= 0x10000 { 2u128 } else { 1u128 });
        i = i + 1;
    }
    assert(s@.take(s@.len() as int) =~= s@);
    n
}

/// Whether `s` starts with `prefix`.
pub fn starts_with(s: &str, prefix: &str) -> (r: bool)
    ensures
        r == prefix@.is_prefix_of(s@),
{
    let v = chars_of(s);
    let p = chars_of(prefix);
    if p.len() > v.len() {
        return false;
    }
    let mut i: usize = 0;
    while i < p.len()
        invariant
            i <= p.len() <= v.len(),
            v@ == s@,
            p@ == prefix@,
            forall|k: int| 0 <= k < i ==> p@[k] == v@[k],
        decreases p.len() - i,
    {
        if v[i] != p[i] {
            assert(prefix@[i as int] != s@.take(prefix@.len() as int)[i as int]);
            return false;
        }
        i = i + 1;
    }
    assert(prefix@ =~= s@.take(prefix@.len() as int));
    true
}

/// The pieces of `s` between the separators.
pub open spec fn split_parts(s: Seq<char>, sep: char) -> Seq<Seq<char>>
    decreases s.len(),
{
    if s.len() == 0 {
        seq![Seq::empty()]
    } else {
        let p = split_parts(s.drop_last(), sep);
        if s.last() == sep {
            p.push(Seq::empty())
        } else {
            p.drop_last().push(p.last().push(s.last()))
        }
    }
}

proof fn lemma_split_parts_nonempty(s: Seq<char>, sep: char)
    ensures
        split_parts(s, sep).len() > 0,
    decreases s.len(),
{
    if s.len() > 0 {
        lemma_split_parts_nonempty(s.drop_last(), sep);
    }
}

/// The pieces of `s` between the separators.
pub fn split(s: &str, sep: char) -> (r: Vec<String>)
    ensures
        strings_view(r@) == split_parts(s@, sep),
        r@.len() > 0,
{
    let v = chars_of(s);
    let mut done: Vec<String> = Vec::new();
    let mut cur = String::new();
    let mut i: usize = 0;
    assert(s@.take(0) =~= Seq::empty());
    assert(strings_view(done@).push(cur@) =~= seq![Seq::<char>::empty()]);
    while i < v.len()
        invariant
            i <= v.len(),
            v@ == s@,
            strings_view(done@).push(cur@) == split_parts(s@.take(i as int), sep),
        decreases v.len() - i,
    {
        let c = v[i];
        let ghost p = strings_view(done@).push(cur@);
        assert(s@.take(i as int + 1).drop_last() =~= s@.take(i as int));
        if c == sep {
            assert(strings_view(done@.push(cur)) =~= strings_view(done@).push(cur@));
            done.push(cur);
            cur = String::new();
            assert(cur@ =~= Seq::empty());
        } else {
            assert(p.drop_last() =~= strings_view(done@));
            cur.push(c);
        }
        i = i + 1;
    }
    assert(s@.take(s@.len() as int) =~= s@);
    assert(strings_view(done@.push(cur)) =~= strings_view(done@).push(cur@));
    done.push(cur);
    done
}

/// Whether `part` is one of the strings of `list`.
pub fn list_has(list: &Vec<String>, part: &str) -> (r: bool)
    ensures
        r == strings_view(list@).contains(part@),
{
    let mut i: usize = 0;
    while i < list.len()
        invariant
            i <= list.len(),
            forall|k: int| 0 <= k < i ==> (#[trigger] strings_view(list@)[k]) != part@,
        decreases list.len() - i,
    {
        if same(list[i].as_str(), part) {
            assert(strings_view(list@)[i as int] == part@);
            return true;
        }
        i = i + 1;
    }
    false
}

/// The character of a decimal digit.
pub open spec fn digit(d: nat) -> char {
    (0x30 + d) as char
}

/// `n` in decimal.
pub open spec fn decimal(n: nat) -> Seq<char>
    decreases n,
{
    if n < 10 {
        seq![digit(n)]
    } else {
        decimal(n / 10).push(digit(n % 10))
    }
}

/// `n` in decimal.
pub fn decimal_text(n: usize) -> (r: String)
    ensures
        r@ == decimal(n as nat),
    decreases n,
{
    let mut r: String = if n < 10 {
        String::new()
    } else {
        decimal_text(n / 10)
    };
    let d: u8 = (n % 10) as u8;
    r.push((0x30 + d) as char);
    proof {
        assert(r@ =~= decimal(n as nat));
    }
    r
}

/// How many bytes `c` takes in UTF-8.
pub open spec fn utf8_width(c: char) -> nat {
    if (c as u32) < 0x80 {
        1
    } else if (c as u32) < 0x800 {
        2
    } else if (c as u32) < 0x10000 {
        3
    } else {
        4
    }
}

/// How many bytes the characters of `s` take in UTF-8.
pub open spec fn utf8_offset(s: Seq<char>) -> nat
    decreases s.len(),
{
    if s.len() == 0 {
        0
    } else {
        utf8_offset(s.drop_last()) + utf8_width(s.last())
    }
}

/// How many bytes `c` takes in UTF-8.
pub fn char_width(c: char) -> (r: u64)
    ensures
        r == utf8_width(c),
{
    let u: u32 = c as u32;
    if u < 0x80 {
        1
    } else if u < 0x800 {
        2
    } else if u < 0x10000 {
        3
    } else {
        4
    }
}

/// The character of a hexadecimal digit, in capitals.
pub open spec fn hex_digit(d: nat) -> char {
    if d < 10 {
        digit(d)
    } else {
        (0x41 + (d - 10)) as char
    }
}

/// `n` in hexadecimal, with at least `width` digits.
pub open spec fn hex(n: nat, width: nat) -> Seq<char>
    decreases n, width,
{
    if n < 16 && width <= 1 {
        seq![hex_digit(n)]
    } else {
        hex(
            n / 16,
            if width > 0 {
                (width - 1) as nat
            } else {
                0
            },
        ).push(hex_digit(n % 16))
    }
}

/// `n` in hexadecimal, with at least `width` digits.
pub fn hex_text(n: u32, width: u32) -> (r: String)
    ensures
        r@ == hex(n as nat, width as nat),
    decreases n, width,
{
    let mut r: String = if n < 16 && width <= 1 {
        String::new()
    } else {
        hex_text(
            n / 16,
            if width > 0 {
                width - 1
            } else {
                0
            },
        )
    };
    let d: u8 = (n % 16) as u8;
    r.push(
        if d < 10 {
            (0x30 + d) as char
        } else {
            (0x41 + (d - 10)) as char
        },
    );
    proof {
        assert(r@ =~= hex(n as nat, width as nat));
    }
    r
}

/// Trimming takes white space from both ends and nothing else: what is left starts and ends
/// with something, and with the white space that was taken it is the text.
pub proof fn trimming_takes_white_space_from_the_ends(s: Seq<char>) -> (ends: (Seq<char>, Seq<char>))
    ensures
        s == ends.0 + trimmed(s) + ends.1,
        forall|i: int| 0 <= i < ends.0.len() ==> is_white(#[trigger] ends.0[i]),
        forall|i: int| 0 <= i < ends.1.len() ==> is_white(#[trigger] ends.1[i]),
        trimmed(s).len() > 0 ==> !is_white(trimmed(s)[0]) && !is_white(trimmed(s).last()),
{
    let front = lemma_trimmed_front(s);
    let t = trimmed_front(s);
    let back = lemma_trimmed_back(t);
    assert(s =~= front + trimmed(s) + back);
    if trimmed(s).len() > 0 {
        assert(t[0] == trimmed(s)[0]);
    }
    (front, back)
}

proof fn lemma_trimmed_front(s: Seq<char>) -> (front: Seq<char>)
    ensures
        s == front + trimmed_front(s),
        forall|i: int| 0 <= i < front.len() ==> is_white(#[trigger] front[i]),
        trimmed_front(s).len() > 0 ==> !is_white(trimmed_front(s)[0]),
    decreases s.len(),
{
    if s.len() > 0 && is_white(s[0]) {
        let rest = lemma_trimmed_front(s.drop_first());
        let front = seq![s[0]] + rest;
        let t = trimmed_front(s.drop_first());
        assert(s =~= seq![s[0]] + s.drop_first());
        assert(seq![s[0]] + (rest + t) =~= front + t);
        assert(s =~= front + trimmed_front(s));
        front
    } else {
        assert(s =~= Seq::<char>::empty() + s);
        Seq::empty()
    }
}

proof fn lemma_trimmed_back(s: Seq<char>) -> (back: Seq<char>)
    ensures
        s == trimmed_back(s) + back,
        forall|i: int| 0 <= i < back.len() ==> is_white(#[trigger] back[i]),
        trimmed_back(s).len() > 0 ==> !is_white(trimmed_back(s).last()),
    decreases s.len(),
{
    if s.len() > 0 && is_white(s.last()) {
        let rest = lemma_trimmed_back(s.drop_last());
        let back = rest.push(s.last());
        let t = trimmed_back(s.drop_last());
        assert(s =~= s.drop_last().push(s.last()));
        assert((t + rest).push(s.last()) =~= t + back);
        assert(s =~= trimmed_back(s) + back);
        back
    } else {
        assert(s =~= s + Seq::<char>::empty());
        Seq::empty()
    }
}

/// Spaces, tabs, line ends and the wide space are white; letters, digits, punctuation and
/// ideographs are not.
pub proof fn white_space_is_what_shows_nothing(c: char)
    ensures
        is_white(' ') && is_white('\t') && is_white('\n') && is_white('\r') && is_white('\u{3000}')
            && is_white('\u{a0}') && is_white('\u{85}'),
        0x21 <= c as u32 <= 0x7E ==> !is_white(c),
        ascii_letter(c) ==> !is_white(c),
        han(c) ==> !is_white(c),
        is_white(c) && (c as u32) < 0x80 ==> c as u32 == 0x20 || 0x9 <= c as u32 <= 0xD,
{
}

/// Ideographs are the unified ones, the extensions and the compatibility ones; no letter, no
/// digit, no punctuation, no kana and no wide form is one.
pub proof fn only_ideographs_are_han(c: char)
    ensures
        (c as u32) < 0x3400 ==> !han(c),
        0x4DC0 <= c as u32 && (c as u32) < 0x4E00 ==> !han(c),
        0xA000 <= c as u32 && (c as u32) < 0xF900 ==> !han(c),
        0xFB00 <= c as u32 && (c as u32) < 0x20000 ==> !han(c),
        c as u32 >= 0x40000 ==> !han(c),
        0x3400 <= c as u32 <= 0x4DBF || 0x4E00 <= c as u32 <= 0x9FFF || 0xF900 <= c as u32 <= 0xFAFF
            || 0x20000 <= c as u32 <= 0x3FFFF ==> han(c),
        han('\u{4e00}') && han('\u{9fff}') && !han('A') && !han('1') && !han('\u{3002}'),
{
}

/// Lower case changes the capitals from A to Z, each to its small letter, and nothing else.
pub proof fn lower_case_changes_capitals_only(c: char)
    ensures
        'A' as u32 <= c as u32 <= 'Z' as u32 ==> lowered(c) as u32 == c as u32 + ('a' as u32
            - 'A' as u32),
        !('A' as u32 <= c as u32 <= 'Z' as u32) ==> lowered(c) == c,
        lowered(lowered(c)) == lowered(c),
        ascii_letter(c) <==> 'a' as u32 <= lowered(c) as u32 <= 'z' as u32,
{
}

/// A text in lower case has the same length, and each of its characters in lower case.
pub proof fn texts_are_lowered_character_by_character(s: Seq<char>)
    ensures
        lowered_text(s).len() == s.len(),
        forall|i: int| 0 <= i < s.len() ==> #[trigger] lowered_text(s)[i] == lowered(s[i]),
{
}

/// The length in UTF-16 counts two units for a character outside plane 0 and one for any
/// other.
pub proof fn utf16_counts_units(a: Seq<char>, b: Seq<char>, c: char)
    ensures
        utf16_len(a + b) == utf16_len(a) + utf16_len(b),
        utf16_len(seq![c]) == (if c as u32 <= 0xFFFF {
            1nat
        } else {
            2nat
        }),
        utf16_len(Seq::empty()) == 0,
    decreases b.len(),
{
    reveal_with_fuel(utf16_len, 2);
    assert(seq![c].drop_last() =~= Seq::<char>::empty());
    if b.len() == 0 {
        assert(a + b =~= a);
    } else {
        utf16_counts_units(a, b.drop_last(), c);
        assert((a + b).drop_last() =~= a + b.drop_last());
        assert((a + b).last() == b.last());
    }
}

/// Splitting cuts at every separator and nowhere else.
pub proof fn splitting_cuts_at_separators(a: Seq<char>, b: Seq<char>, sep: char)
    ensures
        split_parts(a.push(sep) + b, sep) == split_parts(a, sep) + split_parts(b, sep),
        !a.contains(sep) ==> split_parts(a, sep) == seq![a],
    decreases b.len(),
{
    lemma_split_parts_nonempty(a, sep);
    lemma_split_parts_nonempty(b, sep);
    if !a.contains(sep) {
        lemma_unsplit(a, sep);
    }
    if b.len() == 0 {
        assert(a.push(sep) + b =~= a.push(sep));
        assert(a.push(sep).drop_last() =~= a);
        assert(split_parts(a, sep).push(Seq::empty()) =~= split_parts(a, sep) + split_parts(b, sep));
    } else {
        let d = b.drop_last();
        splitting_cuts_at_separators(a, d, sep);
        lemma_split_parts_nonempty(d, sep);
        let whole = a.push(sep) + b;
        assert(whole.drop_last() =~= a.push(sep) + d);
        assert(whole.last() == b.last());
        assert(split_parts(whole, sep) =~= split_parts(a, sep) + split_parts(b, sep));
    }
}

proof fn lemma_unsplit(a: Seq<char>, sep: char)
    requires
        !a.contains(sep),
    ensures
        split_parts(a, sep) == seq![a],
    decreases a.len(),
{
    if a.len() > 0 {
        let d = a.drop_last();
        assert forall|i: int| 0 <= i < d.len() implies d[i] != sep by {
            assert(a[i] == d[i]);
            assert(a.contains(a[i]));
        }
        lemma_unsplit(d, sep);
        assert(a.contains(a[a.len() - 1]));
        assert(d.push(a.last()) =~= a);
        assert(split_parts(a, sep) =~= seq![a]);
    } else {
        assert(a =~= Seq::empty());
    }
}

/// The number that decimal digits stand for.
pub open spec fn decimal_value(s: Seq<char>) -> int
    decreases s.len(),
{
    if s.len() == 0 {
        0
    } else {
        10 * decimal_value(s.drop_last()) + (s.last() as int - '0' as int)
    }
}

/// A number in decimal is made of digits that stand for it, without a zero in front.
pub proof fn decimals_stand_for_their_number(n: nat)
    ensures
        decimal_value(decimal(n)) == n,
        decimal(n).len() > 0,
        forall|i: int|
            0 <= i < decimal(n).len() ==> '0' as u32 <= #[trigger] decimal(n)[i] as u32
                <= '9' as u32,
        n > 0 ==> decimal(n)[0] != '0',
    decreases n,
{
    reveal_with_fuel(decimal_value, 2);
    if n < 10 {
        assert(seq![digit(n)].drop_last() =~= Seq::<char>::empty());
    } else {
        let h = n / 10;
        decimals_stand_for_their_number(h);
        assert(decimal(n).drop_last() =~= decimal(h));
        assert forall|i: int| 0 <= i < decimal(n).len() implies '0' as u32
            <= #[trigger] decimal(n)[i] as u32 <= '9' as u32 by {
            if i < decimal(h).len() {
                assert(decimal(n)[i] == decimal(h)[i]);
            }
        }
        assert(decimal(n)[0] == decimal(h)[0]);
    }
}

/// What a hexadecimal digit stands for.
pub open spec fn hex_digit_value(c: char) -> int {
    if c as u32 >= 'A' as u32 {
        10 + (c as int - 'A' as int)
    } else {
        c as int - '0' as int
    }
}

/// The number that hexadecimal digits stand for.
pub open spec fn hex_value(s: Seq<char>) -> int
    decreases s.len(),
{
    if s.len() == 0 {
        0
    } else {
        16 * hex_value(s.drop_last()) + hex_digit_value(s.last())
    }
}

/// A number in hexadecimal is made of digits and capitals that stand for it, no fewer than
/// were asked for, and no more unless the number needs them.
pub proof fn hexadecimals_stand_for_their_number(n: nat, width: nat)
    ensures
        hex_value(hex(n, width)) == n,
        hex(n, width).len() >= width,
        hex(n, width).len() > 0,
        hex(n, width).len() > width && width > 0 ==> hex(n, width)[0] != '0',
        forall|i: int|
            0 <= i < hex(n, width).len() ==> ('0' as u32 <= #[trigger] hex(n, width)[i] as u32
                <= '9' as u32 || 'A' as u32 <= hex(n, width)[i] as u32 <= 'F' as u32),
    decreases n, width,
{
    reveal_with_fuel(hex_value, 2);
    if n < 16 && width <= 1 {
        assert(seq![hex_digit(n)].drop_last() =~= Seq::<char>::empty());
        assert(hex(n, width).len() == 1);
    } else {
        let h = n / 16;
        let w: nat = if width > 0 {
            (width - 1) as nat
        } else {
            0
        };
        hexadecimals_stand_for_their_number(h, w);
        let d = hex_digit(n % 16);
        assert(hex(n, width) == hex(h, w).push(d));
        assert(hex(n, width).drop_last() =~= hex(h, w));
        assert(hex_digit_value(d) == n % 16);
        assert forall|i: int| 0 <= i < hex(n, width).len() implies ('0' as u32
            <= #[trigger] hex(n, width)[i] as u32 <= '9' as u32 || 'A' as u32
            <= hex(n, width)[i] as u32 <= 'F' as u32) by {
            if i < hex(h, w).len() {
                assert(hex(n, width)[i] == hex(h, w)[i]);
            }
        }
        assert(hex(n, width)[0] == hex(h, w)[0]);
        if width == 1 && h < 16 {
            lemma_hex_lead(h);
        }
        if w == 0 {
            lemma_hex_lead(h);
        }
    }
}

proof fn lemma_hex_lead(n: nat)
    ensures
        n > 0 ==> hex(n, 0)[0] != '0',
        hex(n, 0).len() > 0,
    decreases n,
{
    if n >= 16 {
        lemma_hex_lead(n / 16);
        assert(hex(n, 0) == hex(n / 16, 0).push(hex_digit(n % 16)));
        assert(hex(n, 0)[0] == hex(n / 16, 0)[0]);
    }
}

/// The width of a character is the number of bytes that encode it, and so is that of a text.
pub proof fn widths_count_encoded_bytes(s: Seq<char>)
    ensures
        utf8_offset(s) == encode_utf8(s).len(),
    decreases s.len(),
{
    if s.len() > 0 {
        widths_count_encoded_bytes(s.drop_first());
        lemma_utf8_offset_first(s);
        char_is_scalar(s[0]);
        assert(encode_scalar(s[0] as u32).len() == utf8_width(s[0]));
    }
}

proof fn lemma_utf8_offset_first(s: Seq<char>)
    requires
        s.len() > 0,
    ensures
        utf8_offset(s) == utf8_width(s[0]) + utf8_offset(s.drop_first()),
    decreases s.len(),
{
    reveal_with_fuel(utf8_offset, 2);
    if s.len() == 1 {
        assert(s.drop_last() =~= Seq::<char>::empty());
        assert(s.drop_first() =~= Seq::<char>::empty());
    } else {
        lemma_utf8_offset_first(s.drop_last());
        assert(s.drop_last().drop_first() =~= s.drop_first().drop_last());
    }
}

} // verus!
