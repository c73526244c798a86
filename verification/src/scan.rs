//! Taking text apart: finding, splitting, trimming, reading numbers.
use vstd::prelude::*;

use crate::text;

verus! {

/// A set of characters to look for.
#[derive(Clone, Copy, PartialEq, Eq, Structural, Debug)]
pub enum Class {
    /// Just this one.
    Only(char),
    /// White space.
    Space,
    /// The ten decimal digits.
    Digit,
    /// The fifty-two ASCII letters.
    Letter,
    /// ASCII letters and digits.
    Alphanumeric,
    /// What the words of a host name stand between: `-`, `.` and a space.
    Separator,
}

/// Is `c` white space, as Unicode has it?
pub open spec fn is_space(c: char) -> bool {
    ||| '\u{9}' <= c <= '\u{d}'
    ||| c == ' '
    ||| c == '\u{85}'
    ||| c == '\u{a0}'
    ||| c == '\u{1680}'
    ||| '\u{2000}' <= c <= '\u{200a}'
    ||| c == '\u{2028}'
    ||| c == '\u{2029}'
    ||| c == '\u{202f}'
    ||| c == '\u{205f}'
    ||| c == '\u{3000}'
}

/// Is `c` an ASCII letter?
pub open spec fn is_letter(c: char) -> bool {
    'a' <= c <= 'z' || 'A' <= c <= 'Z'
}

impl Class {
    /// Does the set hold `c`?
    pub open spec fn holds(self, c: char) -> bool {
        match self {
            Class::Only(x) => c == x,
            Class::Space => is_space(c),
            Class::Digit => text::is_digit(c),
            Class::Letter => is_letter(c),
            Class::Alphanumeric => is_letter(c) || text::is_digit(c),
            Class::Separator => c == '-' || c == '.' || c == ' ',
        }
    }

    /// Does the set hold `c`?
    pub fn has(self, c: char) -> (out: bool)
        ensures
            out == self.holds(c),
    {
        let digit = '0' <= c && c <= '9';
        let letter = ('a' <= c && c <= 'z') || ('A' <= c && c <= 'Z');
        match self {
            Class::Only(x) => c == x,
            Class::Space => ('\u{9}' <= c && c <= '\u{d}') || c == ' ' || c == '\u{85}' || c
                == '\u{a0}' || c == '\u{1680}' || ('\u{2000}' <= c && c <= '\u{200a}') || c
                == '\u{2028}' || c == '\u{2029}' || c == '\u{202f}' || c == '\u{205f}' || c
                == '\u{3000}',
            Class::Digit => digit,
            Class::Letter => letter,
            Class::Alphanumeric => letter || digit,
            Class::Separator => c == '-' || c == '.' || c == ' ',
        }
    }
}

// ---------------------------------------------------------------- finding

/// Where the first character of the class stands in `s`; the length of `s`
/// when there is none.
pub open spec fn first_of(s: Seq<char>, class: Class) -> int
    decreases s.len(),
{
    if s.len() == 0 || class.holds(s[0]) {
        0
    } else {
        1 + first_of(s.skip(1), class)
    }
}

/// Is every character of `s` in the class?
pub open spec fn all_of(s: Seq<char>, class: Class) -> bool {
    forall|i: int| 0 <= i < s.len() ==> class.holds(#[trigger] s[i])
}

/// What sets `first_of` apart from every other position.
pub proof fn first_of_is(s: Seq<char>, class: Class, k: int)
    requires
        0 <= k <= s.len(),
        forall|i: int| 0 <= i < k ==> !class.holds(#[trigger] s[i]),
        k < s.len() ==> class.holds(s[k]),
    ensures
        first_of(s, class) == k,
    decreases s.len(),
{
    if k > 0 {
        let rest = s.skip(1);
        assert forall|i: int| 0 <= i < k - 1 implies !class.holds(#[trigger] rest[i]) by {
            assert(rest[i] == s[i + 1]);
        }
        first_of_is(rest, class, k - 1);
    }
}

/// `first_of` lies within the text, at the first character of the class.
pub proof fn first_of_bounds(s: Seq<char>, class: Class)
    ensures
        0 <= first_of(s, class) <= s.len(),
        forall|i: int| 0 <= i < first_of(s, class) ==> !class.holds(#[trigger] s[i]),
        first_of(s, class) < s.len() ==> class.holds(s[first_of(s, class)]),
    decreases s.len(),
{
    if s.len() > 0 && !class.holds(s[0]) {
        let rest = s.skip(1);
        first_of_bounds(rest, class);
        assert forall|i: int| 0 <= i < first_of(s, class) implies !class.holds(#[trigger] s[i]) by {
            if i > 0 {
                assert(s[i] == rest[i - 1]);
            }
        }
    }
}

/// The first position at or behind `from` whose character is in the class,
/// counted from `from`.
pub fn find_from(list: &Vec<char>, from: usize, class: Class) -> (out: usize)
    requires
        from <= list@.len(),
    ensures
        out == first_of(list@.skip(from as int), class),
        from + out <= list@.len(),
{
    let ghost tail = list@.skip(from as int);
    let mut i: usize = from;
    while i < list.len() && !class.has(list[i])
        invariant
            from <= i <= list@.len(),
            tail == list@.skip(from as int),
            forall|j: int| 0 <= j < i - from ==> !class.holds(#[trigger] tail[j]),
        decreases list@.len() - i,
    {
        i += 1;
    }
    proof {
        first_of_is(tail, class, i - from);
    }
    i - from
}

/// Is every character of `list` in the class?
pub fn all_in(list: &Vec<char>, class: Class) -> (out: bool)
    ensures
        out == all_of(list@, class),
{
    let mut i: usize = 0;
    while i < list.len()
        invariant
            i <= list@.len(),
            forall|j: int| 0 <= j < i ==> class.holds(#[trigger] list@[j]),
        decreases list@.len() - i,
    {
        if !class.has(list[i]) {
            return false;
        }
        i += 1;
    }
    true
}

/// The characters `list[from]` up to, not including, `list[to]`.
pub fn slice_of(list: &Vec<char>, from: usize, to: usize) -> (out: Vec<char>)
    requires
        from <= to <= list@.len(),
    ensures
        out@ == list@.subrange(from as int, to as int),
{
    let mut out: Vec<char> = Vec::new();
    let mut i: usize = from;
    while i < to
        invariant
            from <= i <= to <= list@.len(),
            out@ == list@.subrange(from as int, i as int),
        decreases to - i,
    {
        out.push(list[i]);
        i += 1;
    }
    out
}

/// Does `part` stand in `s` at position `i`?
pub open spec fn stands_at(s: Seq<char>, part: Seq<char>, i: int) -> bool {
    0 <= i && i + part.len() <= s.len() && s.subrange(i, i + part.len()) == part
}

/// Does `part` occur in `s`?
pub open spec fn occurs(s: Seq<char>, part: Seq<char>) -> bool {
    exists|i: int| stands_at(s, part, i)
}

/// Does `part` stand in `s` at position `i`?
fn found_at(s: &Vec<char>, part: &Vec<char>, i: usize) -> (out: bool)
    requires
        i <= s@.len(),
    ensures
        out == stands_at(s@, part@, i as int),
{
    let len = s.len();
    if part.len() > len - i {
        return false;
    }
    let mut j: usize = 0;
    while j < part.len()
        invariant
            j <= part@.len(),
            i + part@.len() <= len,
            len == s@.len(),
            forall|k: int| 0 <= k < j ==> s@[i + k] == #[trigger] part@[k],
        decreases part@.len() - j,
    {
        if s[i + j] != part[j] {
            assert(s@.subrange(i as int, i + part@.len())[j as int] != part@[j as int]);
            return false;
        }
        j += 1;
    }
    assert(s@.subrange(i as int, i + part@.len()) =~= part@);
    true
}

/// Does `part` occur in `s`?
pub fn contains(s: &Vec<char>, part: &str) -> (out: bool)
    ensures
        out == occurs(s@, part@),
{
    let needle = text::chars_of(part);
    let mut i: usize = 0;
    while i < s.len()
        invariant
            i <= s@.len(),
            needle@ == part@,
            forall|k: int| 0 <= k < i ==> !#[trigger] stands_at(s@, part@, k),
        decreases s@.len() - i,
    {
        if found_at(s, &needle, i) {
            return true;
        }
        i += 1;
    }
    found_at(s, &needle, i)
}

/// Does `s` begin with `part`?
pub open spec fn begins(s: Seq<char>, part: Seq<char>) -> bool {
    stands_at(s, part, 0)
}

/// What follows `part` at the beginning of `s`.
pub fn strip_prefix(s: &Vec<char>, part: &str) -> (out: Option<Vec<char>>)
    ensures
        out is Some <==> begins(s@, part@),
        out is Some ==> out->0@ == s@.skip(part@.len() as int),
{
    let part = text::chars_of(part);
    if found_at(s, &part, 0) {
        let out = slice_of(s, part.len(), s.len());
        assert(out@ =~= s@.skip(part@.len() as int));
        Some(out)
    } else {
        None
    }
}

/// The last position, at or before `from`, where `part` stands in `s`; negative
/// when there is none.
pub open spec fn last_at(s: Seq<char>, part: Seq<char>, from: int) -> int
    decreases from + 1,
{
    if from < 0 || stands_at(s, part, from) {
        from
    } else {
        last_at(s, part, from - 1)
    }
}

/// What follows the last occurrence of `part` in `s`; all of `s` when there
/// is none.
pub open spec fn tail_after(s: Seq<char>, part: Seq<char>) -> Seq<char> {
    let k = last_at(s, part, s.len() as int);
    if k < 0 {
        s
    } else {
        s.skip(k + part.len())
    }
}

/// What follows the last occurrence of `part` in `s`; all of `s` when there
/// is none.
pub fn after_last(s: &Vec<char>, part: &str) -> (out: Vec<char>)
    ensures
        out@ == tail_after(s@, part@),
{
    let needle = text::chars_of(part);
    let len = s.len();
    let mut i: usize = len;
    loop
        invariant
            i <= len,
            len == s@.len(),
            needle@ == part@,
            last_at(s@, part@, len as int) == last_at(s@, part@, i as int),
        decreases i,
    {
        if found_at(s, &needle, i) {
            let out = slice_of(s, i + needle.len(), len);
            assert(out@ =~= s@.skip(i + part@.len()));
            return out;
        }
        if i == 0 {
            assert(last_at(s@, part@, -1) == -1);
            let out = slice_of(s, 0, len);
            assert(out@ =~= s@);
            return out;
        }
        i -= 1;
    }
}

// ---------------------------------------------------------------- splitting

/// What stands before and behind the first `sep`, if there is one.
pub open spec fn split_once(s: Seq<char>, sep: char) -> Option<(Seq<char>, Seq<char>)> {
    let i = first_of(s, Class::Only(sep));
    if i < s.len() {
        Some((s.take(i), s.skip(i + 1)))
    } else {
        None
    }
}

/// What stands before and behind the first `sep`, if there is one.
pub fn halves(s: &str, sep: char) -> (out: Option<(String, String)>)
    ensures
        out is Some <==> split_once(s@, sep) is Some,
        out matches Some((before, behind)) ==> split_once(s@, sep) == Some((before@, behind@)),
{
    let list = text::chars_of(s);
    let i = find_from(&list, 0, Class::Only(sep));
    assert(list@.skip(0) =~= s@);
    if i < list.len() {
        let before = text::string_of(&list, 0, i);
        let behind = text::string_of(&list, i + 1, list.len());
        assert(before@ =~= s@.take(i as int));
        assert(behind@ =~= s@.skip(i + 1));
        Some((before, behind))
    } else {
        None
    }
}

/// The pieces between the characters of the class; one more than there are
/// such characters.
pub open spec fn pieces(s: Seq<char>, class: Class) -> Seq<Seq<char>>
    decreases s.len(),
{
    let i = first_of(s, class);
    if 0 <= i < s.len() {
        seq![s.take(i)] + pieces(s.skip(i + 1), class)
    } else {
        seq![s]
    }
}

/// The pieces between the characters of the class.
pub fn split(list: &Vec<char>, class: Class) -> (out: Vec<Vec<char>>)
    ensures
        out@.len() > 0,
        out@.map_values(|v: Vec<char>| v@) == pieces(list@, class),
{
    let mut out: Vec<Vec<char>> = Vec::new();
    let mut from: usize = 0;
    let len = list.len();
    assert(list@.skip(0) =~= list@);
    assert(out@.map_values(|v: Vec<char>| v@) + pieces(list@, class) =~= pieces(list@, class));
    loop
        invariant
            from <= len,
            len == list@.len(),
            out@.map_values(|v: Vec<char>| v@) + pieces(list@.skip(from as int), class) == pieces(
                list@,
                class,
            ),
        decreases list@.len() - from,
    {
        let ghost rest = list@.skip(from as int);
        let ghost before = out@.map_values(|v: Vec<char>| v@);
        let i = find_from(list, from, class);
        let piece = slice_of(list, from, from + i);
        assert(piece@ =~= rest.take(i as int));
        out.push(piece);
        assert(out@.map_values(|v: Vec<char>| v@) =~= before.push(rest.take(i as int)));
        if from + i == len {
            assert(rest.take(i as int) =~= rest);
            assert(pieces(rest, class) =~= seq![rest]);
            assert(before + seq![rest] =~= before.push(rest));
            return out;
        }
        proof {
            assert(rest.skip(i + 1) =~= list@.skip(from + i + 1));
            assert(before + (seq![rest.take(i as int)] + pieces(rest.skip(i + 1), class))
                =~= before.push(rest.take(i as int)) + pieces(rest.skip(i + 1), class));
        }
        from = from + i + 1;
    }
}

// ---------------------------------------------------------------- trimming

/// `s` without the characters of the class at its beginning.
pub open spec fn trim_start(s: Seq<char>, class: Class) -> Seq<char>
    decreases s.len(),
{
    if s.len() > 0 && class.holds(s[0]) {
        trim_start(s.skip(1), class)
    } else {
        s
    }
}

/// `s` without the characters of the class at its end.
pub open spec fn trim_end(s: Seq<char>, class: Class) -> Seq<char>
    decreases s.len(),
{
    if s.len() > 0 && class.holds(s.last()) {
        trim_end(s.drop_last(), class)
    } else {
        s
    }
}

/// `s` without white space at its ends.
pub open spec fn trim(s: Seq<char>) -> Seq<char> {
    trim_end(trim_start(s, Class::Space), Class::Space)
}

/// How many characters of `list` from `from` on are left to skip over.
pub fn skip_class(list: &Vec<char>, from: usize, class: Class) -> (out: usize)
    requires
        from <= list@.len(),
    ensures
        from <= out <= list@.len(),
        list@.skip(out as int) == trim_start(list@.skip(from as int), class),
        out == list@.len() || !class.holds(list@[out as int]),
{
    let mut i: usize = from;
    while i < list.len() && class.has(list[i])
        invariant
            from <= i <= list@.len(),
            trim_start(list@.skip(i as int), class) == trim_start(list@.skip(from as int), class),
        decreases list@.len() - i,
    {
        assert(list@.skip(i as int).skip(1) =~= list@.skip(i + 1));
        i += 1;
    }
    i
}

/// `list` without the characters of the class at its end.
pub fn without_end(list: &Vec<char>, class: Class) -> (out: Vec<char>)
    ensures
        out@ == trim_end(list@, class),
{
    let mut end: usize = list.len();
    assert(list@.take(end as int) =~= list@);
    while end > 0 && class.has(list[end - 1])
        invariant
            end <= list@.len(),
            trim_end(list@.take(end as int), class) == trim_end(list@, class),
        decreases end,
    {
        assert(list@.take(end as int).drop_last() =~= list@.take(end - 1));
        end -= 1;
    }
    let out = slice_of(list, 0, end);
    assert(out@ =~= list@.take(end as int));
    out
}

/// `s` without white space at its ends.
pub fn trimmed(s: &str) -> (out: Vec<char>)
    ensures
        out@ == trim(s@),
{
    let list = text::chars_of(s);
    let from = skip_class(&list, 0, Class::Space);
    assert(list@.skip(0) =~= s@);
    let rest = slice_of(&list, from, list.len());
    assert(rest@ =~= list@.skip(from as int));
    without_end(&rest, Class::Space)
}

/// The words of `s`: what stands between stretches of white space.
pub open spec fn words(s: Seq<char>) -> Seq<Seq<char>>
    decreases s.len(),
{
    let t = trim_start(s, Class::Space);
    let i = first_of(t, Class::Space);
    if t.len() == 0 || !(0 < i <= t.len() <= s.len()) {
        Seq::empty()
    } else {
        seq![t.take(i)] + words(t.skip(i))
    }
}

/// Trimming takes nothing but characters at the beginning away.
proof fn trim_start_shorter(s: Seq<char>, class: Class)
    ensures
        trim_start(s, class).len() <= s.len(),
        trim_start(s, class).len() > 0 ==> !class.holds(trim_start(s, class)[0]),
    decreases s.len(),
{
    if s.len() > 0 && class.holds(s[0]) {
        trim_start_shorter(s.skip(1), class);
    }
}

/// The first two words of `s`, if it has as many.
pub fn first_two_words(s: &str) -> (out: Option<(String, String)>)
    ensures
        out is Some <==> words(s@).len() >= 2,
        out matches Some((first, second)) ==> first@ == words(s@)[0] && second@ == words(s@)[1],
{
    let list = text::chars_of(s);
    let len = list.len();
    let a = skip_class(&list, 0, Class::Space);
    let n = find_from(&list, a, Class::Space);
    let b = skip_class(&list, a + n, Class::Space);
    let m = find_from(&list, b, Class::Space);
    let ghost t = list@.skip(a as int);
    let ghost rest = list@.skip(a + n);
    let ghost u = list@.skip(b as int);
    proof {
        assert(list@.skip(0) =~= s@);
        trim_start_shorter(s@, Class::Space);
        trim_start_shorter(rest, Class::Space);
        first_of_bounds(t, Class::Space);
        first_of_bounds(u, Class::Space);
        assert(t.skip(n as int) =~= rest);
    }
    if n == 0 {
        assert(words(s@).len() == 0);
        return None;
    }
    assert(words(s@) == seq![t.take(n as int)] + words(rest));
    if m == 0 {
        assert(words(rest).len() == 0);
        return None;
    }
    assert(words(rest) == seq![u.take(m as int)] + words(u.skip(m as int)));
    let first = text::string_of(&list, a, a + n);
    let second = text::string_of(&list, b, b + m);
    assert(first@ =~= t.take(n as int));
    assert(second@ =~= u.take(m as int));
    Some((first, second))
}

// ---------------------------------------------------------------- numbers

/// The number that a row of decimal digits spells.
pub open spec fn value(s: Seq<char>) -> nat
    decreases s.len(),
{
    if s.len() == 0 {
        0
    } else {
        value(s.drop_last()) * 10 + (s.last() as nat - 48) as nat
    }
}

/// `s` without a plus sign in front.
pub open spec fn unsigned(s: Seq<char>) -> Seq<char> {
    if s.len() > 0 && s[0] == '+' {
        s.skip(1)
    } else {
        s
    }
}

/// The number below 256 that `s` spells: decimal digits, at least one, with
/// or without a plus sign in front.
pub open spec fn byte_of(s: Seq<char>) -> Option<u8> {
    let digits = unsigned(s);
    if digits.len() > 0 && all_of(digits, Class::Digit) && value(digits) <= 255 {
        Some(value(digits) as u8)
    } else {
        None
    }
}

/// More digits never spell less.
proof fn value_grows(s: Seq<char>, i: int)
    requires
        0 <= i <= s.len(),
    ensures
        value(s.take(i)) <= value(s),
    decreases s.len(),
{
    if i < s.len() {
        assert(s.drop_last().take(i) =~= s.take(i));
        value_grows(s.drop_last(), i);
    } else {
        assert(s.take(i) =~= s);
    }
}

/// The number below 256 that `s` spells.
pub fn parse_byte(s: &str) -> (out: Option<u8>)
    ensures
        out == byte_of(s@),
{
    let list = text::chars_of(s);
    let start: usize = if list.len() > 0 && list[0] == '+' {
        1
    } else {
        0
    };
    let ghost digits = unsigned(s@);
    assert(list@.skip(start as int) =~= digits);
    if start == list.len() {
        return None;
    }
    let mut n: u32 = 0;
    let mut i: usize = start;
    assert(digits.take(0) =~= Seq::<char>::empty());
    while i < list.len()
        invariant
            start <= i <= list@.len(),
            digits == list@.skip(start as int),
            digits == unsigned(s@),
            n == value(digits.take(i - start)),
            n <= 255,
            forall|j: int| 0 <= j < i - start ==> Class::Digit.holds(#[trigger] digits[j]),
        decreases list@.len() - i,
    {
        let c = list[i];
        assert(digits[i - start] == c);
        if !Class::Digit.has(c) {
            return None;
        }
        proof {
            assert(digits.take(i - start + 1).drop_last() =~= digits.take(i - start));
        }
        n = n * 10 + (c as u32 - 48);
        if n > 255 {
            proof {
                value_grows(digits, i - start + 1);
            }
            return None;
        }
        i += 1;
    }
    assert(digits.take(i - start) =~= digits);
    Some(n as u8)
}

/// Decimal notation spells the number that it was made from.
pub proof fn value_of_decimal(n: nat)
    ensures
        value(text::decimal(n)) == n,
    decreases n,
{
    let s = text::decimal(n);
    assert(s.last() == text::digit(n % 10));
    if n < 10 {
        assert(s.drop_last() =~= Seq::<char>::empty());
        assert(value(Seq::<char>::empty()) == 0);
    } else {
        value_of_decimal(n / 10);
        assert(s.drop_last() =~= text::decimal(n / 10));
    }
}

/// A number below 256 reads back from its decimal notation.
pub proof fn byte_of_decimal(n: u8)
    ensures
        byte_of(text::decimal(n as nat)) == Some(n),
{
    text::decimal_digits(n as nat);
    value_of_decimal(n as nat);
    assert(text::is_digit(text::decimal(n as nat)[0]));
}

// ---------------------------------------------------------------- laws

/// What the classes hold, by the numbers of the characters.
pub proof fn classes_hold_their_characters(c: char, x: char)
    ensures
        Class::Only(x).holds(c) <==> c == x,
        Class::Digit.holds(c) <==> 48 <= c as int <= 57,
        Class::Letter.holds(c) <==> 65 <= c as int <= 90 || 97 <= c as int <= 122,
        Class::Alphanumeric.holds(c) <==> 48 <= c as int <= 57 || 65 <= c as int <= 90 || 97
            <= c as int <= 122,
        Class::Separator.holds(c) <==> c as int == 45 || c as int == 46 || c as int == 32,
        Class::Space.holds(c) <==> 9 <= c as int <= 13 || c as int == 32 || c as int == 0x85
            || c as int == 0xa0 || c as int == 0x1680 || 0x2000 <= c as int <= 0x200a || c as int
            == 0x2028 || c as int == 0x2029 || c as int == 0x202f || c as int == 0x205f || c as int
            == 0x3000,
{
}

/// Trimming the end takes off characters of the class, all of them, and nothing
/// else.
pub proof fn trimming_the_end_takes_the_class_off(s: Seq<char>, class: Class)
    ensures
        trim_end(s, class).len() <= s.len(),
        trim_end(s, class) == s.take(trim_end(s, class).len() as int),
        forall|i: int| trim_end(s, class).len() <= i < s.len() ==> class.holds(#[trigger] s[i]),
        trim_end(s, class).len() > 0 ==> !class.holds(trim_end(s, class).last()),
    decreases s.len(),
{
    if s.len() > 0 && class.holds(s.last()) {
        let front = s.drop_last();
        trimming_the_end_takes_the_class_off(front, class);
        assert(front.take(trim_end(s, class).len() as int) =~= s.take(
            trim_end(s, class).len() as int,
        ));
        assert forall|i: int| trim_end(s, class).len() <= i < s.len() implies class.holds(
            #[trigger] s[i],
        ) by {
            if i < front.len() {
                assert(front[i] == s[i]);
            }
        }
    } else {
        assert(s.take(s.len() as int) =~= s);
    }
}

/// Trimming the beginning takes off characters of the class, all of them, and
/// nothing else.
pub proof fn trimming_the_start_takes_the_class_off(s: Seq<char>, class: Class)
    ensures
        trim_start(s, class).len() <= s.len(),
        trim_start(s, class) == s.skip(s.len() - trim_start(s, class).len()),
        forall|i: int|
            0 <= i < s.len() - trim_start(s, class).len() ==> class.holds(#[trigger] s[i]),
        trim_start(s, class).len() > 0 ==> !class.holds(trim_start(s, class)[0]),
    decreases s.len(),
{
    if s.len() > 0 && class.holds(s[0]) {
        let rest = s.skip(1);
        trimming_the_start_takes_the_class_off(rest, class);
        assert(rest.skip(rest.len() - trim_start(s, class).len()) =~= s.skip(
            s.len() - trim_start(s, class).len(),
        ));
        assert forall|i: int| 0 <= i < s.len() - trim_start(s, class).len() implies class.holds(
            #[trigger] s[i],
        ) by {
            if i > 0 {
                assert(rest[i - 1] == s[i]);
            }
        }
    } else {
        assert(s.skip(0) =~= s);
    }
}

/// A text without white space at its ends comes out of whatever white space is
/// put around it.
pub proof fn trimming_finds_the_text_within(before: Seq<char>, s: Seq<char>, behind: Seq<char>)
    requires
        forall|i: int| 0 <= i < before.len() ==> Class::Space.holds(#[trigger] before[i]),
        forall|i: int| 0 <= i < behind.len() ==> Class::Space.holds(#[trigger] behind[i]),
        s.len() > 0 ==> !Class::Space.holds(s[0]) && !Class::Space.holds(s.last()),
    ensures
        trim(before + s + behind) == s,
{
    let all = before + s + behind;
    let t = trim_start(all, Class::Space);
    trimming_the_start_takes_the_class_off(all, Class::Space);
    trimming_the_end_takes_the_class_off(t, Class::Space);
    let u = trim(all);
    let off = all.len() - t.len();
    if s.len() > 0 {
        let k = before.len() as int;
        assert(all[k] == s[0]);
        if off < k {
            assert(t[0] == all[off]);
            assert(all[off] == before[off]);
        }
        if off > k {
            assert(Class::Space.holds(all[k]));
        }
        assert(t =~= s + behind);
        let last = s.len() - 1;
        assert(t[last] == s.last());
        if u.len() <= last {
            assert(Class::Space.holds(t[last]));
        }
        if u.len() > s.len() {
            assert(u.last() == t[u.len() - 1]);
            assert(t[u.len() - 1] == behind[u.len() - 1 - s.len()]);
        }
        assert(u =~= s);
    } else {
        if t.len() > 0 {
            assert(t[0] == all[off]);
            if off < before.len() {
                assert(all[off] == before[off]);
            } else {
                assert(all[off] == behind[off - before.len()]);
            }
        }
        assert(u =~= s);
    }
}

/// A text is split at the first separator, and at no other.
pub proof fn splitting_once_finds_the_first(before: Seq<char>, sep: char, behind: Seq<char>)
    requires
        !before.contains(sep),
    ensures
        split_once(before + seq![sep] + behind, sep) == Some((before, behind)),
        split_once(before, sep) is None,
{
    let s = before + seq![sep] + behind;
    let k = before.len() as int;
    assert forall|i: int| 0 <= i < k implies !Class::Only(sep).holds(#[trigger] s[i]) by {
        assert(s[i] == before[i]);
        assert(before.contains(before[i]));
    }
    assert(s[k] == sep);
    first_of_is(s, Class::Only(sep), k);
    assert(s.take(k) =~= before);
    assert(s.skip(k + 1) =~= behind);
    assert forall|i: int| 0 <= i < k implies !Class::Only(sep).holds(#[trigger] before[i]) by {
        assert(before.contains(before[i]));
    }
    first_of_is(before, Class::Only(sep), k);
}

/// A text without characters of the class is one piece; what stands before such
/// a character is the first piece, and the rest is split on its own.
pub proof fn splitting_cuts_at_every_separator(
    before: Seq<char>,
    sep: char,
    behind: Seq<char>,
    class: Class,
)
    requires
        forall|i: int| 0 <= i < before.len() ==> !class.holds(#[trigger] before[i]),
        class.holds(sep),
    ensures
        pieces(before, class) == seq![before],
        pieces(before + seq![sep] + behind, class) == seq![before] + pieces(behind, class),
{
    let s = before + seq![sep] + behind;
    let k = before.len() as int;
    assert forall|i: int| 0 <= i < k implies !class.holds(#[trigger] s[i]) by {
        assert(s[i] == before[i]);
    }
    assert(s[k] == sep);
    first_of_is(s, class, k);
    first_of_is(before, class, k);
    assert(s.take(k) =~= before);
    assert(s.skip(k + 1) =~= behind);
}

/// White space alone holds no words; a word in front of the end or of white
/// space is the first, and the rest is read on its own.
pub proof fn words_stand_between_white_space(space: Seq<char>, word: Seq<char>, rest: Seq<char>)
    requires
        forall|i: int| 0 <= i < space.len() ==> Class::Space.holds(#[trigger] space[i]),
        forall|i: int| 0 <= i < word.len() ==> !Class::Space.holds(#[trigger] word[i]),
        word.len() > 0,
        rest.len() > 0 ==> Class::Space.holds(rest[0]),
    ensures
        words(space).len() == 0,
        words(space + word + rest) == seq![word] + words(rest),
{
    let s = space + word + rest;
    let t = trim_start(s, Class::Space);
    trimming_the_start_takes_the_class_off(s, Class::Space);
    trimming_the_start_takes_the_class_off(space, Class::Space);
    if trim_start(space, Class::Space).len() > 0 {
        let off = space.len() - trim_start(space, Class::Space).len();
        assert(trim_start(space, Class::Space)[0] == space[off]);
    }
    let off = s.len() - t.len();
    let k = space.len() as int;
    assert(s[k] == word[0]);
    if off > k {
        assert(Class::Space.holds(s[k]));
    }
    if off < k {
        assert(t[0] == s[off] && s[off] == space[off]);
    }
    assert(t =~= word + rest);
    let n = word.len() as int;
    assert forall|i: int| 0 <= i < n implies !Class::Space.holds(#[trigger] t[i]) by {
        assert(t[i] == word[i]);
    }
    if rest.len() > 0 {
        assert(t[n] == rest[0]);
    }
    first_of_is(t, Class::Space, n);
    assert(t.take(n) =~= word);
    assert(t.skip(n) =~= rest);
}

/// A part occurs in a text exactly when the text is something, the part, and
/// something.
pub proof fn parts_occur_within(before: Seq<char>, part: Seq<char>, behind: Seq<char>)
    ensures
        occurs(before + part + behind, part),
        begins(part + behind, part),
{
    let s = before + part + behind;
    assert(s.subrange(before.len() as int, before.len() as int + part.len()) =~= part);
    assert(stands_at(s, part, before.len() as int));
    assert((part + behind).subrange(0, 0int + part.len()) =~= part);
}

/// Where a part occurs, it stands with its characters one by one.
pub proof fn occurring_parts_are_there(s: Seq<char>, part: Seq<char>) -> (i: int)
    requires
        occurs(s, part),
    ensures
        0 <= i <= s.len() - part.len(),
        forall|k: int| 0 <= k < part.len() ==> s[i + k] == #[trigger] part[k],
        begins(s, part) ==> forall|k: int| 0 <= k < part.len() ==> s[k] == #[trigger] part[k],
{
    let i = choose|i: int| stands_at(s, part, i);
    assert forall|k: int| 0 <= k < part.len() implies s[i + k] == #[trigger] part[k] by {
        assert(s.subrange(i, i + part.len())[k] == part[k]);
    }
    if begins(s, part) {
        assert forall|k: int| 0 <= k < part.len() implies s[k] == #[trigger] part[k] by {
            assert(s.subrange(0, 0int + part.len())[k] == part[k]);
        }
    }
    i
}

/// What follows the last occurrence of a part is what no further occurrence
/// begins in or reaches into; without an occurrence it is all.
pub proof fn the_tail_follows_the_last_occurrence(
    before: Seq<char>,
    part: Seq<char>,
    tail: Seq<char>,
)
    requires
        forall|i: int|
            i > before.len() ==> !#[trigger] stands_at(before + part + tail, part, i),
    ensures
        tail_after(before + part + tail, part) == tail,
{
    let s = before + part + tail;
    let k = before.len() as int;
    assert(s.subrange(k, k + part.len()) =~= part);
    assert(stands_at(s, part, k));
    last_at_is(s, part, s.len() as int, k);
    assert(s.skip(k + part.len()) =~= tail);
}

/// Without an occurrence, the tail is the whole text.
pub proof fn the_tail_of_no_occurrence_is_all(s: Seq<char>, part: Seq<char>)
    requires
        !occurs(s, part),
    ensures
        tail_after(s, part) == s,
{
    assert forall|i: int| i > -1 implies !#[trigger] stands_at(s, part, i) by {}
    last_at_is(s, part, s.len() as int, -1);
}

/// The last position is the one behind which there is no other.
proof fn last_at_is(s: Seq<char>, part: Seq<char>, from: int, k: int)
    requires
        -1 <= k <= from,
        k >= 0 ==> stands_at(s, part, k),
        forall|i: int| i > k ==> !#[trigger] stands_at(s, part, i),
    ensures
        last_at(s, part, from) == k,
    decreases from - k,
{
    if from > k {
        assert(!stands_at(s, part, from));
        last_at_is(s, part, from - 1, k);
    }
}

/// A digit behind a number is worth itself and makes the rest worth ten times as
/// much; zeros in front are worth nothing.
pub proof fn digits_are_worth_their_place(s: Seq<char>, d: char)
    requires
        '0' <= d <= '9',
    ensures
        value(Seq::empty()) == 0,
        value(s.push(d)) == 10 * value(s) + (d as int - 48),
        value(seq!['0'] + s) == value(s),
    decreases s.len(),
{
    assert(s.push(d).drop_last() =~= s);
    let z = seq!['0'] + s;
    if s.len() > 0 {
        digits_are_worth_their_place(s.drop_last(), '0');
        assert(z.drop_last() =~= seq!['0'] + s.drop_last());
        assert(z.last() == s.last());
    } else {
        assert(z.drop_last() =~= Seq::<char>::empty());
        assert(value(Seq::<char>::empty()) == 0);
        assert(s =~= Seq::<char>::empty());
    }
}

/// A text spells a number below 256 exactly when it is at least one digit, with
/// or without a plus sign in front, and worth no more than 255.
pub proof fn bytes_are_spelled_by_digits(s: Seq<char>)
    ensures
        s.len() > 0 && (forall|i: int| 0 <= i < s.len() ==> '0' <= #[trigger] s[i] <= '9') && value(
            s,
        ) <= 255 ==> byte_of(s) == Some(value(s) as u8) && byte_of(seq!['+'] + s) == byte_of(s),
        s.len() > 0 && value(s) > 255 && '0' <= s[0] <= '9' ==> byte_of(s) is None,
        s.len() == 0 ==> byte_of(s) is None,
        forall|i: int|
            0 < i < s.len() && !('0' <= #[trigger] s[i] <= '9') ==> byte_of(s) is None,
        s.len() > 0 && !('0' <= s[0] <= '9') && s[0] != '+' ==> byte_of(s) is None,
{
    assert((seq!['+'] + s).skip(1) =~= s);
    if s.len() > 0 && '0' <= s[0] <= '9' {
        assert(unsigned(s) == s);
    }
    assert forall|i: int| 0 < i < s.len() && !('0' <= #[trigger] s[i] <= '9') implies byte_of(
        s,
    ) is None by {
        if s[0] == '+' {
            assert(unsigned(s)[i - 1] == s[i]);
        } else {
            assert(unsigned(s)[i] == s[i]);
        }
    }
    if s.len() > 0 && !('0' <= s[0] <= '9') && s[0] != '+' {
        assert(unsigned(s)[0] == s[0]);
    }
}

} // verus!
