//! Building and taking apart text: decimal and hexadecimal numbers, prefixes, and joins.
use vstd::prelude::*;

verus! {

/// `String::push` appends one character at the end.
pub assume_specification[ String::push ](s: &mut String, c: char)
    ensures
        final(s)@ == old(s)@.push(c),
;

/// The decimal or hexadecimal digit of `d`, in lower case.
pub open spec fn digit_char(d: int) -> char {
    if d < 10 {
        ('0' as int + d) as char
    } else {
        ('a' as int + d - 10) as char
    }
}

/// The digits of `n` in base `base`, most significant first, without leading zeros.
pub open spec fn digits(n: nat, base: nat) -> Seq<char>
    recommends
        2 <= base <= 16,
    decreases n,
{
    if base < 2 || n < base {
        seq![digit_char(n as int)]
    } else {
        proof {
            assert(n / base < n) by (nonlinear_arith)
                requires
                    n >= base >= 2,
            ;
        }
        digits(n / base, base).push(digit_char((n % base) as int))
    }
}

/// `n` in decimal.
pub open spec fn dec(n: int) -> Seq<char> {
    if n < 0 {
        seq!['-'] + digits((-n) as nat, 10)
    } else {
        digits(n as nat, 10)
    }
}

/// Different numbers have different texts.
pub proof fn law_decimal_text_is_injective(a: nat, b: nat)
    requires
        dec(a as int) == dec(b as int),
    ensures
        a == b,
{
    lemma_digits_injective(a, b);
}

proof fn lemma_digits_injective(a: nat, b: nat)
    requires
        digits(a, 10) == digits(b, 10),
    ensures
        a == b,
    decreases a,
{
    let x = digits(a, 10);
    let y = digits(b, 10);
    assert(x.last() == digit_char(a as int % 10));
    assert(y.last() == digit_char(b as int % 10));
    assert(a % 10 == b % 10);
    if a >= 10 && b >= 10 {
        assert(x.drop_last() =~= digits(a / 10, 10));
        assert(y.drop_last() =~= digits(b / 10, 10));
        lemma_digits_injective(a / 10, b / 10);
    } else if a >= 10 {
        assert(digits(a / 10, 10).len() >= 1);
    } else if b >= 10 {
        assert(digits(b / 10, 10).len() >= 1);
    }
}

/// `n` in lower-case hexadecimal.
pub open spec fn hex(n: nat) -> Seq<char> {
    digits(n, 16)
}

/// `s` with zeros in front of it, so that at least `width` characters come out.
pub open spec fn zero_padded(s: Seq<char>, width: nat) -> Seq<char> {
    if s.len() >= width {
        s
    } else {
        Seq::new((width - s.len()) as nat, |i: int| '0') + s
    }
}

fn digit(d: u64) -> (c: char)
    requires
        d < 16,
    ensures
        c == digit_char(d as int),
{
    match d {
        0 => '0',
        1 => '1',
        2 => '2',
        3 => '3',
        4 => '4',
        5 => '5',
        6 => '6',
        7 => '7',
        8 => '8',
        9 => '9',
        10 => 'a',
        11 => 'b',
        12 => 'c',
        13 => 'd',
        14 => 'e',
        _ => 'f',
    }
}

fn digits_of(n: u64, base: u64) -> (s: String)
    requires
        2 <= base <= 16,
    ensures
        s@ == digits(n as nat, base as nat),
    decreases n,
{
    if n < base {
        let mut s: String = String::new();
        s.push(digit(n));
        assert(s@ =~= seq![digit_char(n as int)]);
        s
    } else {
        assert(n / base < n) by (nonlinear_arith)
            requires
                n >= base >= 2,
        ;
        let mut s: String = digits_of(n / base, base);
        s.push(digit(n % base));
        s
    }
}

/// `n` in decimal.
pub fn dec_u64(n: u64) -> (s: String)
    ensures
        s@ == dec(n as int),
{
    digits_of(n, 10)
}

/// `n` in decimal, with a minus sign in front of a negative number.
pub fn dec_i64(n: i64) -> (s: String)
    ensures
        s@ == dec(n as int),
{
    if n < 0 {
        let magnitude: u64 = if n == i64::MIN {
            0x8000_0000_0000_0000
        } else {
            (-n) as u64
        };
        let mut s: String = String::new();
        s.push('-');
        s.append(digits_of(magnitude, 10).as_str());
        assert(s@ =~= dec(n as int));
        s
    } else {
        digits_of(n as u64, 10)
    }
}

/// `n` in lower-case hexadecimal, padded with zeros to `width` characters.
pub fn hex_padded(n: u64, width: usize) -> (s: String)
    ensures
        s@ == zero_padded(hex(n as nat), width as nat),
{
    pad(digits_of(n, 16), width)
}

/// `s`, padded with zeros to `width` characters.
pub fn pad(s: String, width: usize) -> (r: String)
    ensures
        r@ == zero_padded(s@, width as nat),
{
    let len: usize = s.as_str().unicode_len();
    if len >= width {
        return s;
    }
    let mut r: String = String::new();
    let mut i: usize = 0;
    while i < width - len
        invariant
            len < width,
            0 <= i <= width - len,
            r@ =~= Seq::new(i as nat, |j: int| '0'),
        decreases width - len - i,
    {
        r.push('0');
        i = i + 1;
    }
    r.append(s.as_str());
    r
}

/// The characters of `s`.
pub fn chars_of(s: &str) -> (r: Vec<char>)
    ensures
        r@ == s@,
{
    let mut r: Vec<char> = Vec::new();
    for c in it: s.chars()
        invariant
            it.seq() == s@,
            r@ =~= s@.take(it.index() as int),
    {
        r.push(c);
    }
    r
}

/// The text made of `chars[from..to]`.
pub fn text_of(chars: &Vec<char>, from: usize, to: usize) -> (s: String)
    requires
        from <= to <= chars@.len(),
    ensures
        s@ == chars@.subrange(from as int, to as int),
{
    let mut s: String = String::new();
    let mut i: usize = from;
    while i < to
        invariant
            from <= i <= to <= chars@.len(),
            s@ =~= chars@.subrange(from as int, i as int),
        decreases to - i,
    {
        s.push(chars[i]);
        i = i + 1;
    }
    s
}

/// Whether two texts are the same.
pub fn same(a: &str, b: &str) -> (r: bool)
    ensures
        r == (a@ == b@),
{
    let x: String = a.to_owned();
    let y: String = b.to_owned();
    x == y
}

/// `a` followed by `b`.
pub fn cat2(a: &str, b: &str) -> (r: String)
    ensures
        r@ == a@ + b@,
{
    a.to_owned().concat(b)
}

/// `a`, `b` and `c` in a row.
pub fn cat3(a: &str, b: &str, c: &str) -> (r: String)
    ensures
        r@ == a@ + b@ + c@,
{
    a.to_owned().concat(b).concat(c)
}

/// `a`, `b`, `c` and `d` in a row.
pub fn cat4(a: &str, b: &str, c: &str, d: &str) -> (r: String)
    ensures
        r@ == a@ + b@ + c@ + d@,
{
    a.to_owned().concat(b).concat(c).concat(d)
}

/// `a`, `b`, `c`, `d` and `e` in a row.
pub fn cat5(a: &str, b: &str, c: &str, d: &str, e: &str) -> (r: String)
    ensures
        r@ == a@ + b@ + c@ + d@ + e@,
{
    a.to_owned().concat(b).concat(c).concat(d).concat(e)
}

/// The parts in a row, with `sep` between neighbours.
pub open spec fn joined(parts: Seq<Seq<char>>, sep: Seq<char>) -> Seq<char>
    decreases parts.len(),
{
    if parts.len() == 0 {
        seq![]
    } else if parts.len() == 1 {
        parts[0]
    } else {
        joined(parts.drop_last(), sep) + sep + parts.last()
    }
}

/// The parts in a row, with `sep` between neighbours.
pub fn join(parts: &Vec<String>, sep: &str) -> (r: String)
    ensures
        r@ == joined(parts.deep_view(), sep@),
{
    let mut r: String = String::new();
    let mut i: usize = 0;
    while i < parts.len()
        invariant
            0 <= i <= parts@.len(),
            r@ == joined(parts.deep_view().take(i as int), sep@),
        decreases parts@.len() - i,
    {
        proof {
            let before = parts.deep_view().take(i as int);
            let after = parts.deep_view().take(i + 1);
            assert(after.drop_last() =~= before);
            assert(after.last() == parts@[i as int]@);
        }
        if i > 0 {
            r.append(sep);
        }
        r.append(parts[i].as_str());
        proof {
            if i == 0 {
                assert(r@ =~= parts@[0]@);
            }
        }
        i = i + 1;
    }
    assert(parts.deep_view().take(i as int) =~= parts.deep_view());
    r
}

/// Where `c` first stands in `s` at or after `from`, or the length where it does not.
pub open spec fn next_char(s: Seq<char>, c: char, from: int) -> int
    decreases s.len() - from,
{
    if from < 0 || from >= s.len() {
        s.len() as int
    } else if s[from] == c {
        from
    } else {
        next_char(s, c, from + 1)
    }
}

pub proof fn lemma_next_char(s: Seq<char>, c: char, from: int)
    requires
        0 <= from <= s.len(),
    ensures
        from <= next_char(s, c, from) <= s.len(),
        next_char(s, c, from) < s.len() ==> s[next_char(s, c, from)] == c,
        forall|i: int| from <= i < next_char(s, c, from) ==> #[trigger] s[i] != c,
    decreases s.len() - from,
{
    if from < s.len() && s[from] != c {
        lemma_next_char(s, c, from + 1);
    }
}

/// The parts of `s` between the places where `c` stands, from `from` on.
pub open spec fn split_from(s: Seq<char>, c: char, from: int) -> Seq<Seq<char>>
    decreases s.len() - from,
{
    if from < 0 || from > s.len() {
        seq![]
    } else {
        let end = next_char(s, c, from);
        proof {
            lemma_next_char(s, c, from);
        }
        if end >= s.len() {
            seq![s.subrange(from, s.len() as int)]
        } else {
            seq![s.subrange(from, end)] + split_from(s, c, end + 1)
        }
    }
}

/// The parts of `s` between the places where `c` stands.
pub open spec fn split(s: Seq<char>, c: char) -> Seq<Seq<char>> {
    split_from(s, c, 0)
}

/// A part that is put behind others comes out behind them.
pub proof fn lemma_split_behind(a: Seq<char>, c: char, b: Seq<char>, from: int)
    requires
        0 <= from <= a.len(),
        !b.contains(c),
    ensures
        split_from(a.push(c) + b, c, from) == split_from(a, c, from).push(b),
    decreases a.len() - from,
{
    let s = a.push(c) + b;
    let end = next_char(a, c, from);
    lemma_next_char(a, c, from);
    lemma_next_char(s, c, from);
    let found = next_char(s, c, from);
    if end < a.len() {
        assert(s[end] == c);
        if found < end {
            assert(a[found] == s[found]);
        }
        if end < found {
            assert(s[end] != c);
        }
        lemma_split_behind(a, c, b, end + 1);
        assert(s.subrange(from, end) =~= a.subrange(from, end));
        assert(split_from(s, c, from) =~= split_from(a, c, from).push(b));
    } else {
        assert(s[a.len() as int] == c);
        if found < a.len() {
            assert(a[found] == s[found]);
        }
        assert(found == a.len());
        let rest = a.len() as int + 1;
        lemma_next_char(s, c, rest);
        let last = next_char(s, c, rest);
        if last < s.len() {
            assert(b[last - rest] == c);
        }
        assert(s.subrange(rest, s.len() as int) =~= b);
        assert(s.subrange(from, found) =~= a.subrange(from, a.len() as int));
        assert(split_from(s, c, rest) =~= seq![b]);
        assert(split_from(s, c, from) =~= split_from(a, c, from).push(b));
    }
}

/// Parts that were joined are found again, as long as none holds what stands between them.
pub proof fn law_split_undoes_join(parts: Seq<Seq<char>>, c: char)
    requires
        parts.len() > 0,
        forall|i: int| 0 <= i < parts.len() ==> !(#[trigger] parts[i]).contains(c),
    ensures
        split(joined(parts, seq![c]), c) == parts,
    decreases parts.len(),
{
    if parts.len() == 1 {
        let s = parts[0];
        lemma_next_char(s, c, 0);
        let end = next_char(s, c, 0);
        if end < s.len() {
            assert(s[end] == c);
        }
        assert(s.subrange(0, s.len() as int) =~= s);
        assert(split(s, c) =~= parts);
    } else {
        let front = parts.drop_last();
        law_split_undoes_join(front, c);
        let a = joined(front, seq![c]);
        let b = parts.last();
        assert(!parts[parts.len() - 1].contains(c));
        lemma_split_behind(a, c, b, 0);
        assert(joined(parts, seq![c]) =~= a.push(c) + b);
        assert(front.push(b) =~= parts);
    }
}

/// The parts of `s` between the places where `c` stands.
pub fn split_text(s: &str, c: char) -> (r: Vec<String>)
    ensures
        r.deep_view() == split(s@, c),
        r@.len() > 0,
{
    let chars = chars_of(s);
    let mut parts: Vec<String> = Vec::new();
    let mut from: usize = 0;
    let mut i: usize = 0;
    assert(parts.deep_view() + split_from(s@, c, 0) =~= split(s@, c));
    while i < chars.len()
        invariant
            chars@ == s@,
            0 <= from <= i <= chars@.len(),
            forall|j: int| from <= j < i ==> #[trigger] s@[j] != c,
            parts.deep_view() + split_from(s@, c, from as int) == split(s@, c),
        decreases chars@.len() - i,
    {
        if chars[i] == c {
            let ghost before = parts.deep_view();
            proof {
                lemma_next_char(s@, c, from as int);
                let end = next_char(s@, c, from as int);
                if end < i {
                    assert(s@[end] != c);
                }
            }
            let part = text_of(&chars, from, i);
            parts.push(part);
            proof {
                assert(parts.deep_view() =~= before.push(part@));
                assert(parts.deep_view() + split_from(s@, c, i + 1) =~= before + (seq![part@]
                    + split_from(s@, c, i + 1)));
            }
            from = i + 1;
        }
        i = i + 1;
    }
    let ghost before = parts.deep_view();
    proof {
        lemma_next_char(s@, c, from as int);
        let end = next_char(s@, c, from as int);
        if end < chars@.len() {
            assert(s@[end] != c);
        }
    }
    let part = text_of(&chars, from, i);
    parts.push(part);
    assert(parts.deep_view() =~= before + seq![part@]);
    parts
}

/// Whether `s` begins with `prefix`.
pub open spec fn begins_with(s: Seq<char>, prefix: Seq<char>) -> bool {
    prefix.len() <= s.len() && s.subrange(0, prefix.len() as int) == prefix
}

/// What follows `prefix` in `s`, where `s` begins with it.
pub open spec fn after_prefix(s: Seq<char>, prefix: Seq<char>) -> Option<Seq<char>> {
    if begins_with(s, prefix) {
        Some(s.subrange(prefix.len() as int, s.len() as int))
    } else {
        None
    }
}

/// Whether `s` begins with `prefix`.
pub fn has_prefix(s: &str, prefix: &str) -> (r: bool)
    ensures
        r == begins_with(s@, prefix@),
{
    let len: usize = prefix.unicode_len();
    if s.unicode_len() < len {
        return false;
    }
    same(s.substring_char(0, len), prefix)
}

/// What follows `prefix` in `s`, where `s` begins with it.
pub fn strip_prefix(s: &str, prefix: &str) -> (r: Option<String>)
    ensures
        r.deep_view() == after_prefix(s@, prefix@),
{
    if has_prefix(s, prefix) {
        let len: usize = prefix.unicode_len();
        Some(s.substring_char(len, s.unicode_len()).to_owned())
    } else {
        None
    }
}

/// Whether `needle` stands somewhere in `s`.
pub open spec fn holds_text(s: Seq<char>, needle: Seq<char>) -> bool {
    exists|i: int|
        0 <= i <= s.len() - needle.len() && #[trigger] s.subrange(i, i + needle.len()) == needle
}

/// Whether `needle` stands somewhere in `s`.
pub fn contains_text(s: &str, needle: &str) -> (r: bool)
    ensures
        r == holds_text(s@, needle@),
{
    let len: usize = s.unicode_len();
    let width: usize = needle.unicode_len();
    if width > len {
        return false;
    }
    let mut i: usize = 0;
    while i <= len - width
        invariant
            len == s@.len(),
            width == needle@.len(),
            width <= len,
            0 <= i <= len - width + 1,
            forall|j: int| 0 <= j < i ==> #[trigger] s@.subrange(j, j + needle@.len()) != needle@,
        decreases len - width + 1 - i,
    {
        if same(s.substring_char(i, i + width), needle) {
            return true;
        }
        if i == len - width {
            return false;
        }
        i = i + 1;
    }
    false
}

/// The value of a decimal digit.
pub open spec fn digit_value(c: char) -> Option<int> {
    if '0' <= c <= '9' {
        Some(c as int - '0' as int)
    } else {
        None
    }
}

/// Why a text is not a number.
#[derive(Clone, Copy, Debug, PartialEq, Eq, Structural)]
pub enum ParseFailure {
    /// There is nothing.
    Empty,
    /// Something other than a digit stands in it.
    InvalidDigit,
    /// The number is too large.
    TooLarge,
}

/// What a [`ParseFailure`] says of itself.
pub open spec fn parse_failure_text(failure: ParseFailure) -> Seq<char> {
    match failure {
        ParseFailure::Empty => "cannot parse integer from empty string"@,
        ParseFailure::InvalidDigit => "invalid digit found in string"@,
        ParseFailure::TooLarge => "number too large to fit in target type"@,
    }
}

impl ParseFailure {
    /// What the failure says of itself.
    pub fn text(self) -> (r: String)
        ensures
            r@ == parse_failure_text(self),
    {
        match self {
            ParseFailure::Empty => "cannot parse integer from empty string".to_owned(),
            ParseFailure::InvalidDigit => "invalid digit found in string".to_owned(),
            ParseFailure::TooLarge => "number too large to fit in target type".to_owned(),
        }
    }
}

/// The number that `value` and the digits of `s` behind it stand for.
pub open spec fn scanned(s: Seq<char>, value: nat, max: nat) -> Result<nat, ParseFailure>
    decreases s.len(),
{
    if s.len() == 0 {
        Ok(value)
    } else {
        match digit_value(s[0]) {
            None => Err(ParseFailure::InvalidDigit),
            Some(d) => if value * 10 + d > max {
                Err(ParseFailure::TooLarge)
            } else {
                scanned(s.drop_first(), (value * 10 + d) as nat, max)
            },
        }
    }
}

/// The unsigned number that `s` writes in decimal: one digit or more, after an optional plus
/// sign, and at most `max`.
pub open spec fn number_in(s: Seq<char>, max: nat) -> Result<nat, ParseFailure> {
    if s.len() == 0 {
        Err(ParseFailure::Empty)
    } else if s[0] == '+' {
        if s.len() == 1 {
            Err(ParseFailure::InvalidDigit)
        } else {
            scanned(s.drop_first(), 0, max)
        }
    } else {
        scanned(s, 0, max)
    }
}

/// A number, as a model.
pub open spec fn number(r: Result<u64, ParseFailure>) -> Result<nat, ParseFailure> {
    match r {
        Ok(n) => Ok(n as nat),
        Err(failure) => Err(failure),
    }
}

/// The unsigned number that `s` writes in decimal.
pub fn parse_number(s: &Vec<char>, max: u64) -> (r: Result<u64, ParseFailure>)
    ensures
        number(r) == number_in(s@, max as nat),
{
    if s.len() == 0 {
        return Err(ParseFailure::Empty);
    }
    let start: usize = if s[0] == '+' {
        1
    } else {
        0
    };
    if start == s.len() {
        return Err(ParseFailure::InvalidDigit);
    }
    let mut n: u64 = 0;
    let mut i: usize = start;
    assert(s@.skip(0) =~= s@);
    assert(s@.skip(1) =~= s@.drop_first());
    while i < s.len()
        invariant
            start <= i <= s@.len(),
            number_in(s@, max as nat) == scanned(s@.skip(i as int), n as nat, max as nat),
            n <= max,
        decreases s@.len() - i,
    {
        let c: char = s[i];
        assert(s@.skip(i as int).drop_first() =~= s@.skip(i + 1));
        if c < '0' || c > '9' {
            return Err(ParseFailure::InvalidDigit);
        }
        let d: u64 = c as u64 - '0' as u64;
        if d > max || n > max / 10 || n * 10 > max - d {
            return Err(ParseFailure::TooLarge);
        }
        n = n * 10 + d;
        i = i + 1;
    }
    Ok(n)
}

/// Whether a character is white space.
pub open spec fn is_space(c: char) -> bool {
    ||| '\u{9}' <= c <= '\u{d}'
    ||| c == ' '
    ||| c == '\u{85}'
    ||| c == '\u{a0}'
    ||| c == '\u{1680}'
    ||| '\u{2000}' <= c <= '\u{200a}'
    ||| c == '\u{2028}'
    ||| c == '\u{2029}'
    ||| c == '\u{202f}'
    ||| c == '\u{205f}'
    ||| c == '\u{3000}'
}

fn is_white(c: char) -> (r: bool)
    ensures
        r == is_space(c),
{
    ('\u{9}' <= c && c <= '\u{d}') || c == ' ' || c == '\u{85}' || c == '\u{a0}' || c == '\u{1680}'
        || ('\u{2000}' <= c && c <= '\u{200a}') || c == '\u{2028}' || c == '\u{2029}' || c
        == '\u{202f}' || c == '\u{205f}' || c == '\u{3000}'
}

/// `s` without the white space at its front.
pub open spec fn trimmed_front(s: Seq<char>) -> Seq<char>
    decreases s.len(),
{
    if s.len() > 0 && is_space(s[0]) {
        trimmed_front(s.drop_first())
    } else {
        s
    }
}

/// `s` without the white space at its end.
pub open spec fn trimmed_back(s: Seq<char>) -> Seq<char>
    decreases s.len(),
{
    if s.len() > 0 && is_space(s.last()) {
        trimmed_back(s.drop_last())
    } else {
        s
    }
}

/// `s` without the white space at its front and at its end.
pub open spec fn trimmed(s: Seq<char>) -> Seq<char> {
    trimmed_back(trimmed_front(s))
}

/// `s` up to its first white space.
pub open spec fn until_space(s: Seq<char>) -> Seq<char>
    decreases s.len(),
{
    if s.len() == 0 || is_space(s[0]) {
        seq![]
    } else {
        seq![s[0]] + until_space(s.drop_first())
    }
}

/// `s` without the white space at its front and at its end.
pub fn trim(s: &Vec<char>) -> (r: Vec<char>)
    ensures
        r@ == trimmed(s@),
{
    let mut from: usize = 0;
    assert(s@.skip(0) =~= s@);
    while from < s.len() && is_white(s[from])
        invariant
            0 <= from <= s@.len(),
            trimmed_front(s@) == trimmed_front(s@.skip(from as int)),
        decreases s@.len() - from,
    {
        assert(s@.skip(from as int).drop_first() =~= s@.skip(from + 1));
        from = from + 1;
    }
    let ghost front = s@.skip(from as int);
    let mut to: usize = s.len();
    assert(s@.subrange(from as int, to as int) =~= front);
    while to > from && is_white(s[to - 1])
        invariant
            0 <= from <= to <= s@.len(),
            trimmed_back(front) == trimmed_back(s@.subrange(from as int, to as int)),
        decreases to,
    {
        assert(s@.subrange(from as int, to as int).drop_last() =~= s@.subrange(
            from as int,
            to - 1,
        ));
        to = to - 1;
    }
    sub_chars(s, from, to)
}

/// The first word of `s`: what stands between the white space at its front and the next one.
pub fn first_word(s: &Vec<char>) -> (r: Vec<char>)
    ensures
        r@ == until_space(trimmed_front(s@)),
{
    let mut from: usize = 0;
    assert(s@.skip(0) =~= s@);
    while from < s.len() && is_white(s[from])
        invariant
            0 <= from <= s@.len(),
            trimmed_front(s@) == trimmed_front(s@.skip(from as int)),
        decreases s@.len() - from,
    {
        assert(s@.skip(from as int).drop_first() =~= s@.skip(from + 1));
        from = from + 1;
    }
    let ghost front = s@.skip(from as int);
    let mut to: usize = from;
    while to < s.len() && !is_white(s[to])
        invariant
            from <= to <= s@.len(),
            until_space(front) =~= s@.subrange(from as int, to as int) + until_space(
                s@.skip(to as int),
            ),
        decreases s@.len() - to,
    {
        assert(s@.skip(to as int).drop_first() =~= s@.skip(to + 1));
        to = to + 1;
    }
    assert(until_space(s@.skip(to as int)) =~= seq![]);
    sub_chars(s, from, to)
}

/// The characters `s[from..to]`.
pub fn sub_chars(s: &Vec<char>, from: usize, to: usize) -> (r: Vec<char>)
    requires
        from <= to <= s@.len(),
    ensures
        r@ == s@.subrange(from as int, to as int),
{
    let mut r: Vec<char> = Vec::new();
    let mut i: usize = from;
    while i < to
        invariant
            from <= i <= to <= s@.len(),
            r@ =~= s@.subrange(from as int, i as int),
        decreases to - i,
    {
        r.push(s[i]);
        i = i + 1;
    }
    r
}

/// A letter in lower case, where it is one of the English alphabet.
pub open spec fn lower(c: char) -> char {
    if 'A' <= c <= 'Z' {
        (c as int + 32) as char
    } else {
        c
    }
}

/// Whether two texts differ at most in the case of letters of the English alphabet.
pub open spec fn same_but_case(a: Seq<char>, b: Seq<char>) -> bool {
    a.len() == b.len() && forall|i: int| 0 <= i < a.len() ==> lower(#[trigger] a[i]) == lower(b[i])
}

fn lower_case(c: char) -> (r: char)
    ensures
        r == lower(c),
{
    if c >= 'A' && c <= 'Z' {
        (c as u8 + 32) as char
    } else {
        c
    }
}

/// Whether two texts differ at most in the case of letters of the English alphabet.
pub fn equal_but_case(a: &Vec<char>, b: &Vec<char>) -> (r: bool)
    ensures
        r == same_but_case(a@, b@),
{
    if a.len() != b.len() {
        return false;
    }
    let mut i: usize = 0;
    while i < a.len()
        invariant
            0 <= i <= a@.len() == b@.len(),
            forall|j: int| 0 <= j < i ==> lower(#[trigger] a@[j]) == lower(b@[j]),
        decreases a@.len() - i,
    {
        if lower_case(a[i]) != lower_case(b[i]) {
            return false;
        }
        i = i + 1;
    }
    true
}

/// What a text looks like to a developer: in quotes, with escapes.
pub uninterp spec fn debug_text(s: Seq<char>) -> Seq<char>;

/// `format!` with `{:?}` writes a text in quotes, with escapes for what cannot be printed. The
/// result depends on the text alone; which characters are escaped is not said here.
#[verifier::external_body]
pub(crate) fn quoted(s: &str) -> (r: String)
    ensures
        r@ == debug_text(s@),
{
    format!("{:?}", s)
}

/// What a path looks like to a developer: in quotes, with escapes.
pub uninterp spec fn debug_path_text(path: Seq<char>) -> Seq<char>;

/// `format!` with `{:?}` writes a [`std::path::Path`] in quotes, with escapes. The result depends
/// on the path alone; which characters are escaped is not said here, and need not be the same as
/// for a text.
#[verifier::external_body]
pub(crate) fn quoted_path(path: &str) -> (r: String)
    ensures
        r@ == debug_path_text(path@),
{
    format!("{:?}", std::path::Path::new(path))
}

} // verus!
