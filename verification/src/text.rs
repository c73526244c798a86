//! Text as sequences of characters: building, measuring, comparing.
use vstd::prelude::*;

verus! {

/// `String::push`: puts one character at the end.
pub assume_specification[ String::push ](s: &mut String, c: char)
    ensures
        final(s)@ == old(s)@.push(c),
;

/// The characters of each string of a list.
pub open spec fn texts(list: Seq<String>) -> Seq<Seq<char>> {
    list.map_values(|s: String| s@)
}

/// The characters of `s`, one by one.
pub fn chars_of(s: &str) -> (out: Vec<char>)
    ensures
        out@ == s@,
{
    let mut out: Vec<char> = Vec::new();
    for c in it: s.chars()
        invariant
            out@ == it.seq().take(it.index() as int),
    {
        out.push(c);
    }
    out
}

/// The string made of the characters `list[from]` up to, not including, `list[to]`.
pub fn string_of(list: &Vec<char>, from: usize, to: usize) -> (out: String)
    requires
        from <= to <= list@.len(),
    ensures
        out@ == list@.subrange(from as int, to as int),
{
    let mut out = String::new();
    let mut i: usize = from;
    while i < to
        invariant
            from <= i <= to <= list@.len(),
            out@ == list@.subrange(from as int, i as int),
        decreases to - i,
    {
        out.push(list[i]);
        i += 1;
    }
    out
}

/// The string made of these characters.
pub fn whole_string(list: &Vec<char>) -> (out: String)
    ensures
        out@ == list@,
{
    let out = string_of(list, 0, list.len());
    assert(out@ =~= list@);
    out
}

/// Do `a` and `b` hold the same characters?
pub fn same(a: &str, b: &str) -> (out: bool)
    ensures
        out == (a@ == b@),
{
    a.to_owned() == b.to_owned()
}

/// Do two lists hold the same texts?
pub fn same_list(a: &Vec<String>, b: &Vec<String>) -> (out: bool)
    ensures
        out == (texts(a@) == texts(b@)),
{
    let n = a.len();
    assert(texts(a@).len() == n && texts(b@).len() == b@.len());
    if n != b.len() {
        return false;
    }
    let mut i: usize = 0;
    while i < n
        invariant
            i <= n,
            n == a@.len(),
            n == b@.len(),
            forall|k: int| 0 <= k < i ==> #[trigger] texts(a@)[k] == texts(b@)[k],
        decreases n - i,
    {
        if !same(a[i].as_str(), b[i].as_str()) {
            assert(texts(a@)[i as int] != texts(b@)[i as int]);
            return false;
        }
        i += 1;
    }
    assert(texts(a@) =~= texts(b@));
    true
}

/// A list with the same texts.
pub fn copy_list(list: &Vec<String>) -> (out: Vec<String>)
    ensures
        texts(out@) == texts(list@),
{
    let mut out: Vec<String> = Vec::new();
    let mut i: usize = 0;
    while i < list.len()
        invariant
            i <= list@.len(),
            texts(out@) == texts(list@).take(i as int),
        decreases list@.len() - i,
    {
        let ghost before = out@;
        out.push(list[i].clone());
        assert(texts(out@) =~= texts(before).push(list@[i as int]@));
        assert(texts(out@) =~= texts(list@).take(i + 1));
        i += 1;
    }
    assert(texts(list@).take(i as int) =~= texts(list@));
    out
}

// ---------------------------------------------------------------- numbers

/// The character of one decimal digit.
pub open spec fn digit(n: nat) -> char
    recommends
        n < 10,
{
    (48 + n) as char
}

/// A number in decimal notation, without leading zeros.
pub open spec fn decimal(n: nat) -> Seq<char>
    decreases n,
{
    if n < 10 {
        seq![digit(n)]
    } else {
        decimal(n / 10).push(digit(n % 10))
    }
}

/// The character of one decimal digit.
pub fn digit_char(n: u8) -> (out: char)
    requires
        n < 10,
    ensures
        out == digit(n as nat),
{
    (48u8 + n) as char
}

/// A number in decimal notation.
pub fn decimal_string(n: u64) -> (out: String)
    ensures
        out@ == decimal(n as nat),
    decreases n,
{
    let mut out = if n < 10 {
        String::new()
    } else {
        decimal_string(n / 10)
    };
    out.push(digit_char((n % 10) as u8));
    out
}

/// Is `c` one of the ten decimal digits?
pub open spec fn is_digit(c: char) -> bool {
    '0' <= c <= '9'
}

/// Decimal notation is made of digits, at least one.
pub proof fn decimal_digits(n: nat)
    ensures
        decimal(n).len() > 0,
        forall|i: int| 0 <= i < decimal(n).len() ==> is_digit(#[trigger] decimal(n)[i]),
    decreases n,
{
    if n >= 10 {
        decimal_digits(n / 10);
    }
}

/// Different numbers have different decimal notations.
pub proof fn decimal_injective(m: nat, n: nat)
    requires
        decimal(m) == decimal(n),
    ensures
        m == n,
    decreases m,
{
    decimal_digits(m / 10);
    decimal_digits(n / 10);
    assert(decimal(m).last() == digit(m % 10));
    assert(decimal(n).last() == digit(n % 10));
    if m >= 10 && n >= 10 {
        assert(decimal(m).drop_last() =~= decimal(m / 10));
        assert(decimal(n).drop_last() =~= decimal(n / 10));
        decimal_injective(m / 10, n / 10);
    }
}

/// A number and what follows it can be told apart where a character that is
/// no digit stands between them.
pub proof fn decimal_then(m: nat, n: nat, sep: char, a: Seq<char>, b: Seq<char>)
    requires
        !is_digit(sep),
        decimal(m) + seq![sep] + a == decimal(n) + seq![sep] + b,
    ensures
        m == n,
        a == b,
{
    decimal_digits(m);
    decimal_digits(n);
    let x = decimal(m) + seq![sep] + a;
    let y = decimal(n) + seq![sep] + b;
    let (lm, ln) = (decimal(m).len() as int, decimal(n).len() as int);
    assert(x[lm] == sep && y[ln] == sep);
    if lm < ln {
        assert(y[lm] == decimal(n)[lm]);
    } else if ln < lm {
        assert(x[ln] == decimal(m)[ln]);
    }
    assert(decimal(m) =~= x.take(lm));
    assert(decimal(n) =~= y.take(ln));
    decimal_injective(m, n);
    assert(a =~= x.skip(lm + 1));
    assert(b =~= y.skip(ln + 1));
}

/// A number in decimal notation, with a zero in front when it has one digit.
pub open spec fn two_digits(n: nat) -> Seq<char> {
    if n < 10 {
        "0"@ + decimal(n)
    } else {
        decimal(n)
    }
}

/// A number in decimal notation, with a zero in front when it has one digit.
pub fn two_digits_string(n: u64) -> (out: String)
    ensures
        out@ == two_digits(n as nat),
{
    if n < 10 {
        "0".to_owned().concat(decimal_string(n).as_str())
    } else {
        decimal_string(n)
    }
}

// ---------------------------------------------------------------- quoting and case

/// How a text is written in a message that quotes it.
pub uninterp spec fn debug_text(s: Seq<char>) -> Seq<char>;

/// Is every character of `s` a printable one of ASCII, and none a quotation
/// mark, an apostrophe or a backslash?
pub open spec fn needs_no_escape(s: Seq<char>) -> bool {
    forall|i: int|
        0 <= i < s.len() ==> {
            &&& ' ' <= #[trigger] s[i] <= '~'
            &&& s[i] != '"'
            &&& s[i] != '\''
            &&& s[i] != '\\'
        }
}

/// A text as a message quotes it: between quotation marks, with whatever needs
/// it escaped.
pub open spec fn quoted_text(s: Seq<char>) -> Seq<char> {
    if needs_no_escape(s) {
        "\""@ + s + "\""@
    } else {
        debug_text(s)
    }
}

/// The `Debug` form of `str`: the text between quotation marks, with whatever
/// needs it escaped. The result depends on the text alone; printable ASCII
/// other than quotation marks, apostrophes and backslashes stands there as it
/// is.
#[verifier::external_body]
pub(crate) fn quoted(s: &str) -> (out: String)
    ensures
        out@ == debug_text(s@),
        needs_no_escape(s@) ==> out@ == "\""@ + s@ + "\""@,
{
    format!("{s:?}")
}

/// A text in upper case.
pub uninterp spec fn upper_text(s: Seq<char>) -> Seq<char>;

/// The upper-case form of an ASCII letter; any other character itself.
pub open spec fn upper_char(c: char) -> char {
    if 'a' <= c <= 'z' {
        (c as u8 - 32) as char
    } else {
        c
    }
}

/// The lower-case form of an ASCII letter; any other character itself.
pub open spec fn lower_char(c: char) -> char {
    if 'A' <= c <= 'Z' {
        (c as u8 + 32) as char
    } else {
        c
    }
}

/// `str::to_uppercase`. The result depends on the text alone; of ASCII text,
/// each letter is replaced by its upper-case form.
#[verifier::external_body]
pub(crate) fn uppercase(s: &str) -> (out: String)
    ensures
        out@ == upper_text(s@),
        (forall|i: int| 0 <= i < s@.len() ==> #[trigger] s@[i] <= '\u{7f}') ==> out@
            == s@.map_values(|c: char| upper_char(c)),
{
    s.to_uppercase()
}

/// The characters of `s` with the ASCII letters in lower case.
pub fn lowercase(s: &str) -> (out: Vec<char>)
    ensures
        out@ == s@.map_values(|c: char| lower_char(c)),
{
    let list = chars_of(s);
    let mut out: Vec<char> = Vec::new();
    let mut i: usize = 0;
    while i < list.len()
        invariant
            i <= list@.len(),
            list@ == s@,
            out@ == s@.take(i as int).map_values(|c: char| lower_char(c)),
        decreases list@.len() - i,
    {
        let c = list[i];
        let low = if 'A' <= c && c <= 'Z' {
            (c as u8 + 32) as char
        } else {
            c
        };
        assert(s@.take(i + 1) =~= s@.take(i as int).push(c));
        out.push(low);
        assert(out@ =~= s@.take(i + 1).map_values(|c: char| lower_char(c)));
        i += 1;
    }
    assert(s@.take(i as int) =~= s@);
    out
}

// ---------------------------------------------------------------- bytes

/// How many bytes a character takes in UTF-8.
pub open spec fn char_width(c: char) -> nat {
    if c <= '\u{7f}' {
        1
    } else if c <= '\u{7ff}' {
        2
    } else if c <= '\u{ffff}' {
        3
    } else {
        4
    }
}

/// The longest beginning of `s` that takes no more than `room` bytes.
pub open spec fn fitting(s: Seq<char>, room: nat) -> Seq<char>
    decreases s.len(),
{
    if s.len() == 0 || char_width(s[0]) > room {
        Seq::empty()
    } else {
        seq![s[0]] + fitting(s.skip(1), (room - char_width(s[0])) as nat)
    }
}

/// The longest beginning of `s` that takes no more than `room` bytes.
pub fn fitting_string(s: &str, room: usize) -> (out: String)
    ensures
        out@ == fitting(s@, room as nat),
{
    let list = chars_of(s);
    let mut out = String::new();
    let mut left: usize = room;
    let mut i: usize = 0;
    assert(s@.skip(0) =~= s@);
    assert(out@ + fitting(s@, room as nat) =~= fitting(s@, room as nat));
    while i < list.len()
        invariant
            i <= list@.len(),
            list@ == s@,
            out@ + fitting(s@.skip(i as int), left as nat) == fitting(s@, room as nat),
        decreases list@.len() - i,
    {
        let c = list[i];
        let width: usize = if c <= '\u{7f}' {
            1
        } else if c <= '\u{7ff}' {
            2
        } else if c <= '\u{ffff}' {
            3
        } else {
            4
        };
        let ghost rest = s@.skip(i as int);
        if width > left {
            assert(out@ + fitting(rest, left as nat) =~= out@);
            return out;
        }
        proof {
            assert(rest.skip(1) =~= s@.skip(i + 1));
            assert(out@ + (seq![c] + fitting(rest.skip(1), (left - width) as nat)) =~= out@.push(c)
                + fitting(rest.skip(1), (left - width) as nat));
        }
        left -= width;
        out.push(c);
        i += 1;
    }
    assert(out@ + fitting(s@.skip(i as int), left as nat) =~= out@);
    out
}

// ---------------------------------------------------------------- padding

/// `n` spaces.
pub open spec fn spaces(n: nat) -> Seq<char> {
    Seq::new(n, |i: int| ' ')
}

/// `s` with spaces behind it, up to `width` characters.
pub open spec fn pad_right(s: Seq<char>, width: nat) -> Seq<char> {
    if s.len() < width {
        s + spaces((width - s.len()) as nat)
    } else {
        s
    }
}

/// `s` with spaces in front of it, up to `width` characters.
pub open spec fn pad_left(s: Seq<char>, width: nat) -> Seq<char> {
    if s.len() < width {
        spaces((width - s.len()) as nat) + s
    } else {
        s
    }
}

/// `n` spaces.
fn spaces_string(n: usize) -> (out: String)
    ensures
        out@ == spaces(n as nat),
{
    let mut out = String::new();
    let mut i: usize = 0;
    while i < n
        invariant
            i <= n,
            out@ == spaces(i as nat),
        decreases n - i,
    {
        out.push(' ');
        i += 1;
    }
    out
}

/// `s` with spaces behind it, up to `width` characters.
pub fn pad_right_string(s: &str, width: usize) -> (out: String)
    ensures
        out@ == pad_right(s@, width as nat),
{
    let len = s.unicode_len();
    if len < width {
        s.to_owned().concat(spaces_string(width - len).as_str())
    } else {
        s.to_owned()
    }
}

/// `s` with spaces in front of it, up to `width` characters.
pub fn pad_left_string(s: &str, width: usize) -> (out: String)
    ensures
        out@ == pad_left(s@, width as nat),
{
    let len = s.unicode_len();
    if len < width {
        spaces_string(width - len).concat(s)
    } else {
        s.to_owned()
    }
}

// ---------------------------------------------------------------- joining

/// The texts of a list with `sep` between neighbours.
pub open spec fn joined(list: Seq<Seq<char>>, sep: Seq<char>) -> Seq<char>
    decreases list.len(),
{
    if list.len() == 0 {
        Seq::empty()
    } else if list.len() == 1 {
        list[0]
    } else {
        joined(list.drop_last(), sep) + sep + list.last()
    }
}

/// The texts of a list with `sep` between neighbours.
pub fn joined_string(list: &Vec<String>, sep: &str) -> (out: String)
    ensures
        out@ == joined(texts(list@), sep@),
{
    let mut out = String::new();
    let mut i: usize = 0;
    assert(texts(list@).take(0) =~= Seq::<Seq<char>>::empty());
    while i < list.len()
        invariant
            i <= list@.len(),
            out@ == joined(texts(list@).take(i as int), sep@),
        decreases list@.len() - i,
    {
        let ghost before = texts(list@).take(i as int);
        let ghost after = texts(list@).take(i + 1);
        proof {
            assert(after.drop_last() =~= before);
            assert(after.last() == list@[i as int]@);
        }
        if i > 0 {
            out = out.concat(sep);
        }
        out = out.concat(list[i].as_str());
        proof {
            if i == 0 {
                assert(out@ =~= list@[0]@);
            }
        }
        i += 1;
    }
    assert(texts(list@).take(i as int) =~= texts(list@));
    out
}

// ---------------------------------------------------------------- laws

/// Decimal notation is positional: its last digit is what is left after tens,
/// and the digits before it are the notation of the tens.
pub proof fn decimal_is_positional(n: nat)
    ensures
        n < 10 ==> decimal(n).len() == 1,
        n >= 10 ==> decimal(n).drop_last() == decimal(n / 10),
        decimal(n).len() > 0,
        decimal(n).last() as nat == '0' as nat + n % 10,
{
    if n >= 10 {
        assert(decimal(n).drop_last() =~= decimal(n / 10));
    }
}

/// Decimal notation has no zero in front, but for zero itself.
pub proof fn decimal_has_no_leading_zero(n: nat)
    ensures
        n > 0 ==> decimal(n)[0] != '0',
    decreases n,
{
    if n >= 10 {
        decimal_digits(n / 10);
        decimal_has_no_leading_zero(n / 10);
        assert(decimal(n)[0] == decimal(n / 10)[0]);
    }
}

/// Padding brings a text to a width with spaces alone, and takes nothing away.
pub proof fn padding_adds_only_spaces(s: Seq<char>, width: nat)
    ensures
        pad_right(s, width).len() == if s.len() < width {
            width
        } else {
            s.len()
        },
        pad_left(s, width).len() == pad_right(s, width).len(),
        pad_right(s, width).take(s.len() as int) == s,
        pad_left(s, width).skip(pad_left(s, width).len() - s.len()) == s,
        forall|i: int|
            s.len() <= i < pad_right(s, width).len() ==> #[trigger] pad_right(s, width)[i] == ' ',
        forall|i: int|
            0 <= i < pad_left(s, width).len() - s.len() ==> #[trigger] pad_left(s, width)[i] == ' ',
{
    assert(pad_right(s, width).take(s.len() as int) =~= s);
    assert(pad_left(s, width).skip(pad_left(s, width).len() - s.len()) =~= s);
}

/// Joining puts the separator between neighbours and nowhere else.
pub proof fn joining_separates_neighbours(list: Seq<Seq<char>>, one: Seq<char>, sep: Seq<char>)
    ensures
        joined(Seq::empty(), sep).len() == 0,
        joined(seq![one], sep) == one,
        list.len() > 0 ==> joined(list.push(one), sep) == joined(list, sep) + sep + one,
{
    assert(list.push(one).drop_last() =~= list);
}

/// Lower case is the same letter, 32 further on, and nothing else changes.
pub proof fn case_changes_letters_only(c: char)
    ensures
        'A' <= c <= 'Z' ==> lower_char(c) as int == c as int + 32,
        !('A' <= c <= 'Z') ==> lower_char(c) == c,
        'a' <= c <= 'z' ==> upper_char(c) as int == c as int - 32,
        !('a' <= c <= 'z') ==> upper_char(c) == c,
        lower_char(lower_char(c)) == lower_char(c),
{
}

/// A number below ten gets a zero in front, another none.
pub proof fn two_digits_are_two_for_small_numbers(n: nat)
    ensures
        n < 100 ==> two_digits(n).len() == 2,
        n < 10 ==> two_digits(n)[0] == '0' && two_digits(n).skip(1) == decimal(n),
        n >= 10 ==> two_digits(n) == decimal(n),
{
    reveal_strlit("0");
    reveal_with_fuel(decimal, 3);
    if n < 10 {
        assert(two_digits(n).skip(1) =~= decimal(n));
    }
}

/// The texts of a list are those of its strings, in order.
pub proof fn texts_are_those_of_the_strings(list: Seq<String>)
    ensures
        texts(list).len() == list.len(),
        forall|i: int| 0 <= i < list.len() ==> #[trigger] texts(list)[i] == list[i]@,
{
}

/// Printable ASCII without quotation marks and backslashes is quoted as it is.
pub proof fn plain_texts_are_quoted_as_they_are(s: Seq<char>)
    requires
        forall|i: int|
            0 <= i < s.len() ==> ' ' <= #[trigger] s[i] <= '~' && s[i] != '"' && s[i] != '\'' && s[i]
                != '\\',
    ensures
        quoted_text(s) == seq!['"'] + s + seq!['"'],
{
    reveal_strlit("\"");
    assert("\""@ =~= seq!['"']);
}

/// What else is quoted has the `Debug` form.
pub proof fn other_texts_are_escaped(s: Seq<char>, i: int)
    requires
        0 <= i < s.len(),
        s[i] < ' ' || s[i] > '~' || s[i] == '"' || s[i] == '\'' || s[i] == '\\',
    ensures
        quoted_text(s) == debug_text(s),
{
}

} // verus!
