//! Editing a line of input. The cursor counts bytes.
use vstd::prelude::*;

use crate::text;

verus! {

/// The byte of a dot.
pub const DOT: u8 = 46;

/// How many bytes `s` takes in UTF-8.
pub open spec fn byte_len(s: Seq<char>) -> nat
    decreases s.len(),
{
    if s.len() == 0 {
        0
    } else {
        text::char_width(s[0]) + byte_len(s.skip(1))
    }
}

/// How many characters stand in the first `at` bytes of `s`; nothing when that
/// cuts a character or lies behind the end.
pub open spec fn index_at(s: Seq<char>, at: nat) -> Option<nat>
    decreases s.len(),
{
    if at == 0 {
        Some(0)
    } else if s.len() == 0 || text::char_width(s[0]) > at {
        None
    } else {
        match index_at(s.skip(1), (at - text::char_width(s[0])) as nat) {
            Some(k) => Some(k + 1),
            None => None,
        }
    }
}

/// The bytes of `s`.
pub open spec fn bytes(s: Seq<char>) -> Seq<u8> {
    vstd::utf8::encode_utf8(s)
}

/// A character is encoded in as many bytes as it takes.
proof fn char_bytes(c: char)
    ensures
        vstd::utf8::encode_scalar(c as u32).len() == text::char_width(c),
{
}

/// The bytes of a text are as many as its characters take.
pub proof fn bytes_len(s: Seq<char>)
    ensures
        bytes(s).len() == byte_len(s),
    decreases s.len(),
{
    if s.len() > 0 {
        bytes_len(s.skip(1));
        assert(s.skip(1) =~= s.drop_first());
        char_bytes(s[0]);
    }
}

/// A position that cuts no character lies within the text, and splits it into
/// that many characters and the rest.
pub proof fn index_at_bounds(s: Seq<char>, at: nat)
    requires
        index_at(s, at) is Some,
    ensures
        index_at(s, at)->0 <= s.len(),
        at <= byte_len(s),
        index_at(s, at)->0 == s.len() <==> at == byte_len(s),
    decreases s.len(),
{
    if at > 0 {
        index_at_bounds(s.skip(1), (at - text::char_width(s[0])) as nat);
    }
}

/// How many bytes `s` takes.
pub fn length(s: &str) -> (out: usize)
    ensures
        out == byte_len(s@),
{
    proof {
        bytes_len(s@);
    }
    s.as_bytes().len()
}

/// How many characters stand in the first `at` bytes of `s`.
fn char_index(list: &Vec<char>, at: usize) -> (out: Option<usize>)
    ensures
        out is Some <==> index_at(list@, at as nat) is Some,
        out is Some ==> out->0 == index_at(list@, at as nat)->0 && out->0 <= list@.len(),
{
    let mut left: usize = at;
    let mut i: usize = 0;
    assert(list@.skip(0) =~= list@);
    while left > 0
        invariant
            i <= list@.len(),
            index_at(list@, at as nat) == match index_at(list@.skip(i as int), left as nat) {
                Some(k) => Some((k + i) as nat),
                None => None,
            },
        decreases left,
    {
        if i == list.len() {
            return None;
        }
        let c = list[i];
        assert(list@.skip(i as int)[0] == c);
        assert(list@.skip(i as int).skip(1) =~= list@.skip(i + 1));
        let width: usize = if c <= '\u{7f}' {
            1
        } else if c <= '\u{7ff}' {
            2
        } else if c <= '\u{ffff}' {
            3
        } else {
            4
        };
        if width > left {
            return None;
        }
        left -= width;
        i += 1;
    }
    Some(i)
}

/// Does the position `at` cut no character?
pub fn is_position(s: &str, at: usize) -> (out: bool)
    ensures
        out == (index_at(s@, at as nat) is Some),
{
    char_index(&text::chars_of(s), at).is_some()
}

/// The text up to byte `at`, and the rest.
pub fn split_at(s: &str, at: usize) -> (out: (String, String))
    requires
        index_at(s@, at as nat) is Some,
    ensures
        out.0@ == s@.take(index_at(s@, at as nat)->0 as int),
        out.1@ == s@.skip(index_at(s@, at as nat)->0 as int),
{
    let list = text::chars_of(s);
    match char_index(&list, at) {
        Some(k) => {
            let before = text::string_of(&list, 0, k);
            let after = text::string_of(&list, k, list.len());
            assert(before@ =~= s@.take(k as int));
            assert(after@ =~= s@.skip(k as int));
            (before, after)
        },
        None => (String::new(), String::new()),
    }
}

/// `s` with `c` put in at byte `at`.
pub fn inserted(s: &str, at: usize, c: char) -> (out: String)
    requires
        index_at(s@, at as nat) is Some,
    ensures
        out@ == s@.insert(index_at(s@, at as nat)->0 as int, c),
{
    let (mut out, after) = split_at(s, at);
    proof {
        index_at_bounds(s@, at as nat);
    }
    out.push(c);
    let out = out.concat(after.as_str());
    assert(out@ =~= s@.insert(index_at(s@, at as nat)->0 as int, c));
    out
}

/// `s` without the character at byte `at`.
pub fn removed(s: &str, at: usize) -> (out: String)
    requires
        index_at(s@, at as nat) is Some,
        at < byte_len(s@),
    ensures
        out@ == s@.remove(index_at(s@, at as nat)->0 as int),
{
    proof {
        index_at_bounds(s@, at as nat);
    }
    let list = text::chars_of(s);
    let len = list.len();
    match char_index(&list, at) {
        Some(k) => {
            let before = text::string_of(&list, 0, k);
            let after = text::string_of(&list, k + 1, len);
            let out = before.concat(after.as_str());
            assert(out@ =~= s@.remove(k as int));
            out
        },
        None => String::new(),
    }
}

// ---------------------------------------------------------------- word motion

/// The cursor, moved left as long as it stands behind a dot (or, for `dots`
/// false, behind anything else).
pub open spec fn back_over(b: Seq<u8>, at: int, dots: bool) -> int
    decreases at,
{
    if 0 < at <= b.len() && (b[at - 1] == DOT) == dots {
        back_over(b, at - 1, dots)
    } else {
        at
    }
}

/// The cursor, moved right as long as it stands before a dot (or, for `dots`
/// false, before anything else).
pub open spec fn forth_over(b: Seq<u8>, at: int, dots: bool) -> int
    decreases b.len() - at,
{
    if 0 <= at < b.len() && (b[at] == DOT) == dots {
        forth_over(b, at + 1, dots)
    } else {
        at
    }
}

/// The start of the label that the cursor is in, or of the one before when it
/// stands at a boundary.
pub open spec fn word_start(b: Seq<u8>, at: int) -> int {
    back_over(b, back_over(b, at, true), false)
}

/// The end of the label that the cursor is in, or of the next one when it
/// stands at a boundary.
pub open spec fn word_end(b: Seq<u8>, at: int) -> int {
    forth_over(b, forth_over(b, at, true), false)
}

/// The cursor, moved left over dots or over anything else.
fn skip_back(b: &[u8], at: usize, dots: bool) -> (out: usize)
    requires
        at <= b@.len(),
    ensures
        out == back_over(b@, at as int, dots),
        out <= at,
{
    let mut i: usize = at;
    while i > 0 && (b[i - 1] == DOT) == dots
        invariant
            i <= at <= b@.len(),
            back_over(b@, at as int, dots) == back_over(b@, i as int, dots),
        decreases i,
    {
        i -= 1;
    }
    i
}

/// The cursor, moved right over dots or over anything else.
fn skip_forth(b: &[u8], at: usize, dots: bool) -> (out: usize)
    ensures
        out == forth_over(b@, at as int, dots),
        at <= out,
        at <= b@.len() ==> out <= b@.len(),
{
    let mut i: usize = at;
    while i < b.len() && (b[i] == DOT) == dots
        invariant
            at <= i,
            at <= b@.len() ==> i <= b@.len(),
            forth_over(b@, at as int, dots) == forth_over(b@, i as int, dots),
        decreases b@.len() - i,
    {
        i += 1;
    }
    i
}

/// The start of the label that the cursor is in, or of the one before.
pub fn word_left(s: &str, at: usize) -> (out: usize)
    requires
        at <= byte_len(s@),
    ensures
        out == word_start(bytes(s@), at as int),
        out <= at,
{
    proof {
        bytes_len(s@);
    }
    let b = s.as_bytes();
    skip_back(b, skip_back(b, at, true), false)
}

/// The end of the label that the cursor is in, or of the next one. A cursor
/// behind the end stays where it is.
pub fn word_right(s: &str, at: usize) -> (out: usize)
    ensures
        out == word_end(bytes(s@), at as int),
        at <= out,
        at <= byte_len(s@) ==> out <= byte_len(s@),
        at >= byte_len(s@) ==> out == at,
{
    proof {
        bytes_len(s@);
    }
    let b = s.as_bytes();
    skip_forth(b, skip_forth(b, at, true), false)
}

// ---------------------------------------------------------------- laws

/// What stands behind a position does not change where the position is.
proof fn index_at_before(s: Seq<char>, t: Seq<char>, at: nat)
    requires
        index_at(s, at) is Some,
        index_at(s, at)->0 <= t.len(),
        forall|i: int| 0 <= i < index_at(s, at)->0 ==> s[i] == #[trigger] t[i],
    ensures
        index_at(t, at) == index_at(s, at),
    decreases s.len(),
{
    if at > 0 {
        index_at_bounds(s, at);
        assert(s[0] == t[0]);
        let rest = (at - text::char_width(s[0])) as nat;
        assert forall|i: int| 0 <= i < index_at(s.skip(1), rest)->0 implies s.skip(1)[i]
            == #[trigger] t.skip(1)[i] by {
            assert(s[i + 1] == t[i + 1]);
        }
        index_at_before(s.skip(1), t.skip(1), rest);
    }
}

/// Putting a character in leaves the position before it where it was, and
/// taking out the character there gives the text back: the backspace key undoes
/// what a key of the ASCII range did.
pub proof fn insert_then_remove(s: Seq<char>, at: nat, c: char)
    requires
        index_at(s, at) is Some,
        text::char_width(c) == 1,
    ensures
        ({
            let k = index_at(s, at)->0 as int;
            let t = s.insert(k, c);
            &&& index_at(t, at) == index_at(s, at)
            &&& index_at(t, at + 1) == Some((k + 1) as nat)
            &&& t.remove(k) == s
        }),
{
    let k = index_at(s, at)->0 as int;
    let t = s.insert(k, c);
    index_at_bounds(s, at);
    index_at_before(s, t, at);
    one_further(t, at);
    assert(t.remove(k) =~= s);
}

/// Behind a character of one byte, the next position is one byte further.
proof fn one_further(s: Seq<char>, at: nat)
    requires
        index_at(s, at) is Some,
        index_at(s, at)->0 < s.len(),
        text::char_width(s[index_at(s, at)->0 as int]) == 1,
    ensures
        index_at(s, at + 1) == Some(index_at(s, at)->0 + 1),
    decreases s.len(),
{
    if at > 0 {
        let rest = (at - text::char_width(s[0])) as nat;
        assert(s.skip(1)[index_at(s.skip(1), rest)->0 as int] == s[index_at(s, at)->0 as int]);
        one_further(s.skip(1), rest);
        assert((at + 1 - text::char_width(s[0])) as nat == rest + 1);
    } else {
        assert(index_at(s.skip(1), 0) == Some(0nat));
    }
}

/// A position counts the characters before it: it is one exactly when the
/// characters up to some point are encoded in that many bytes.
pub proof fn positions_count_encoded_bytes(s: Seq<char>, k: int)
    requires
        0 <= k <= s.len(),
    ensures
        index_at(s, vstd::utf8::encode_utf8(s.take(k)).len()) == Some(k as nat),
        byte_len(s) == vstd::utf8::encode_utf8(s).len(),
    decreases s.len(),
{
    bytes_len(s);
    bytes_len(s.take(k));
    if k > 0 {
        positions_count_encoded_bytes(s.skip(1), k - 1);
        bytes_len(s.skip(1).take(k - 1));
        assert(s.take(k).skip(1) =~= s.skip(1).take(k - 1));
        assert(s.take(k)[0] == s[0]);
    } else {
        assert(s.take(0).len() == 0);
    }
}

/// A position that is one is where some characters end.
pub proof fn positions_are_where_characters_end(s: Seq<char>, at: nat)
    requires
        index_at(s, at) is Some,
    ensures
        index_at(s, at)->0 <= s.len(),
        vstd::utf8::encode_utf8(s.take(index_at(s, at)->0 as int)).len() == at,
    decreases s.len(),
{
    index_at_bounds(s, at);
    let k = index_at(s, at)->0 as int;
    bytes_len(s.take(k));
    if at > 0 {
        let rest = (at - text::char_width(s[0])) as nat;
        positions_are_where_characters_end(s.skip(1), rest);
        bytes_len(s.skip(1).take(k - 1));
        assert(s.take(k).skip(1) =~= s.skip(1).take(k - 1));
    } else {
        assert(s.take(0).len() == 0);
    }
}

/// Moving back passes over dots, or over anything else, and stops before the
/// first of the other kind.
proof fn back_over_stops(b: Seq<u8>, at: int, dots: bool)
    requires
        0 <= at <= b.len(),
    ensures
        0 <= back_over(b, at, dots) <= at,
        forall|k: int| back_over(b, at, dots) <= k < at ==> ((#[trigger] b[k] == 46) == dots),
        back_over(b, at, dots) > 0 ==> (b[back_over(b, at, dots) - 1] == 46) != dots,
    decreases at,
{
    if at > 0 && (b[at - 1] == DOT) == dots {
        back_over_stops(b, at - 1, dots);
    }
}

/// Moving forth passes over dots, or over anything else, and stops before the
/// first of the other kind.
proof fn forth_over_stops(b: Seq<u8>, at: int, dots: bool)
    requires
        0 <= at <= b.len(),
    ensures
        at <= forth_over(b, at, dots) <= b.len(),
        forall|k: int| at <= k < forth_over(b, at, dots) ==> ((#[trigger] b[k] == 46) == dots),
        forth_over(b, at, dots) < b.len() ==> (b[forth_over(b, at, dots)] == 46) != dots,
    decreases b.len() - at,
{
    if at < b.len() && (b[at] == DOT) == dots {
        forth_over_stops(b, at + 1, dots);
    }
}

/// The motion to the left passes first over dots and then over one label, the
/// whole of it, and stops behind a dot or at the start of the line.
pub proof fn the_motion_left_passes_one_label(b: Seq<u8>, at: int) -> (mid: int)
    requires
        0 <= at <= b.len(),
    ensures
        0 <= word_start(b, at) <= mid <= at,
        forall|k: int| mid <= k < at ==> #[trigger] b[k] == 46,
        forall|k: int| word_start(b, at) <= k < mid ==> #[trigger] b[k] != 46,
        word_start(b, at) > 0 ==> b[word_start(b, at) - 1] == 46 && word_start(b, at) < mid,
{
    let mid = back_over(b, at, true);
    back_over_stops(b, at, true);
    back_over_stops(b, mid, false);
    mid
}

/// The motion to the right passes first over dots and then over one label, the
/// whole of it, and stops before a dot or at the end of the line.
pub proof fn the_motion_right_passes_one_label(b: Seq<u8>, at: int) -> (mid: int)
    requires
        0 <= at <= b.len(),
    ensures
        at <= mid <= word_end(b, at) <= b.len(),
        forall|k: int| at <= k < mid ==> #[trigger] b[k] == 46,
        forall|k: int| mid <= k < word_end(b, at) ==> #[trigger] b[k] != 46,
        word_end(b, at) < b.len() ==> b[word_end(b, at)] == 46 && mid < word_end(b, at),
{
    let mid = forth_over(b, at, true);
    forth_over_stops(b, at, true);
    forth_over_stops(b, mid, false);
    mid
}

} // verus!
