//! What holds of numbers, words and paths as text.
use crate::path::{file_name_of, path_within};
use crate::text::{
    after_prefix, begins_with, dec, digit_char, digit_value, digits, holds_text, is_space,
    lemma_split_behind, lower, number_in, same_but_case, scanned, split, trimmed, trimmed_back,
    trimmed_front, until_space, zero_padded, ParseFailure,
};
use vstd::prelude::*;

verus! {

proof fn lemma_scanned_push(s: Seq<char>, c: char, value: nat, max: nat)
    ensures
        scanned(s.push(c), value, max) == match scanned(s, value, max) {
            Ok(before) => scanned(seq![c], before, max),
            Err(failure) => Err(failure),
        },
    decreases s.len(),
{
    if s.len() == 0 {
        assert(s.push(c) =~= seq![c]);
    } else {
        assert(s.push(c).drop_first() =~= s.drop_first().push(c));
        if let Some(d) = digit_value(s[0]) {
            if value * 10 + d <= max {
                lemma_scanned_push(s.drop_first(), c, (value * 10 + d) as nat, max);
            }
        }
    }
}

proof fn lemma_digits_scanned(n: nat, max: nat)
    ensures
        digits(n, 10).len() > 0,
        digits(n, 10)[0] != '+',
        n <= max ==> scanned(digits(n, 10), 0, max) == Ok::<nat, ParseFailure>(n),
        n > max ==> scanned(digits(n, 10), 0, max) == Err::<nat, ParseFailure>(
            ParseFailure::TooLarge,
        ),
    decreases n,
{
    reveal_with_fuel(scanned, 3);
    if n < 10 {
        let text = seq![digit_char(n as int)];
        assert(digits(n, 10) == text);
        assert(text.drop_first() =~= seq![]);
    } else {
        let head = digits(n / 10, 10);
        let last = digit_char((n % 10) as int);
        lemma_digits_scanned(n / 10, max);
        lemma_scanned_push(head, last, 0, max);
        assert(digits(n, 10) == head.push(last));
        assert(seq![last].drop_first() =~= seq![]);
    }
}

/// A number that is written in decimal is read back as it was; one that is larger than allowed is
/// refused for that.
pub proof fn law_decimal_text_is_read_back(n: nat, max: nat)
    ensures
        n <= max ==> number_in(dec(n as int), max) == Ok::<nat, ParseFailure>(n),
        n > max ==> number_in(dec(n as int), max) == Err::<nat, ParseFailure>(
            ParseFailure::TooLarge,
        ),
{
    lemma_digits_scanned(n, max);
}

proof fn lemma_scanned(s: Seq<char>, value: nat, max: nat)
    requires
        value <= max,
    ensures
        scanned(s, value, max) matches Ok(n) ==> n <= max && forall|i: int|
            0 <= i < s.len() ==> '0' <= #[trigger] s[i] <= '9',
    decreases s.len(),
{
    if s.len() > 0 {
        if let Some(d) = digit_value(s[0]) {
            if value * 10 + d <= max {
                let rest = s.drop_first();
                lemma_scanned(rest, (value * 10 + d) as nat, max);
                if scanned(rest, (value * 10 + d) as nat, max) is Ok {
                    assert forall|i: int| 0 <= i < s.len() implies '0' <= #[trigger] s[i]
                        <= '9' by {
                        if i > 0 {
                            assert(rest[i - 1] == s[i]);
                        }
                    }
                }
            }
        }
    }
}

/// Only digits are read as a number, one at least, after a plus sign or not; and one digit more makes
/// the number ten times as large and adds the digit, as long as that is allowed.
pub proof fn law_only_digits_are_numbers(s: Seq<char>, c: char, max: nat)
    ensures
        number_in(seq![], max) is Err,
        number_in(s, max) matches Ok(n) ==> {
            &&& n <= max
            &&& s.len() > 0
            &&& forall|i: int| 1 <= i < s.len() ==> '0' <= #[trigger] s[i] <= '9'
            &&& '0' <= s[0] <= '9' || (s[0] == '+' && s.len() > 1)
            &&& '0' <= c <= '9' && n * 10 + (c as int - '0' as int) <= max ==> number_in(
                s.push(c),
                max,
            ) == Ok::<nat, ParseFailure>((n * 10 + (c as int - '0' as int)) as nat)
            &&& !('0' <= c <= '9') ==> number_in(s.push(c), max) is Err
        },
{
    if s.len() > 0 {
        let tail = s.drop_first();
        reveal_with_fuel(scanned, 2);
        assert(seq![c].drop_first() =~= seq![]);
        if s[0] == '+' && s.len() > 1 {
            assert(s.push(c).drop_first() =~= tail.push(c));
            lemma_scanned(tail, 0, max);
            lemma_scanned_push(tail, c, 0, max);
            if number_in(s, max) is Ok {
                assert forall|i: int| 1 <= i < s.len() implies '0' <= #[trigger] s[i] <= '9' by {
                    assert(tail[i - 1] == s[i]);
                }
            }
        } else {
            lemma_scanned(s, 0, max);
            lemma_scanned_push(s, c, 0, max);
        }
    }
}

/// Whether a text is white space throughout.
pub open spec fn blank(s: Seq<char>) -> bool {
    forall|i: int| 0 <= i < s.len() ==> is_space(#[trigger] s[i])
}

proof fn lemma_trimmed_front(s: Seq<char>)
    ensures
        ({
            let t = trimmed_front(s);
            let cut = s.len() - t.len();
            &&& 0 <= cut
            &&& blank(s.take(cut))
            &&& s.skip(cut) == t
            &&& t.len() > 0 ==> !is_space(t[0])
        }),
    decreases s.len(),
{
    if s.len() > 0 && is_space(s[0]) {
        let rest = s.drop_first();
        lemma_trimmed_front(rest);
        let t = trimmed_front(s);
        let cut = s.len() - t.len();
        assert(s.skip(cut) =~= rest.skip(cut - 1));
        assert forall|i: int| 0 <= i < cut implies is_space(#[trigger] s.take(cut)[i]) by {
            if i > 0 {
                assert(rest.take(cut - 1)[i - 1] == s[i]);
            }
        }
    } else {
        assert(s.skip(0) =~= s);
    }
}

proof fn lemma_trimmed_back(s: Seq<char>)
    ensures
        ({
            let t = trimmed_back(s);
            &&& t.len() <= s.len()
            &&& s.take(t.len() as int) == t
            &&& blank(s.skip(t.len() as int))
            &&& t.len() > 0 ==> !is_space(t.last())
        }),
    decreases s.len(),
{
    if s.len() > 0 && is_space(s.last()) {
        let front = s.drop_last();
        lemma_trimmed_back(front);
        let t = trimmed_back(s);
        assert(s.take(t.len() as int) =~= front.take(t.len() as int));
        let tail = s.skip(t.len() as int);
        assert forall|i: int| 0 <= i < tail.len() implies is_space(#[trigger] tail[i]) by {
            if i < tail.len() - 1 {
                assert(front.skip(t.len() as int)[i] == tail[i]);
            }
        }
    } else {
        assert(s.take(s.len() as int) =~= s);
        assert(s.skip(s.len() as int) =~= seq![]);
    }
}

/// Trimming takes white space off both ends, all of it, and nothing else.
pub proof fn law_trimming_takes_white_space_off(s: Seq<char>)
    ensures
        ({
            let t = trimmed(s);
            &&& t.len() > 0 ==> !is_space(t[0]) && !is_space(t.last())
            &&& exists|front: Seq<char>, back: Seq<char>| #[trigger]
                blank(front) && #[trigger] blank(back) && s == front + t + back
        }),
{
    let middle = trimmed_front(s);
    let t = trimmed(s);
    lemma_trimmed_front(s);
    lemma_trimmed_back(middle);
    let cut = s.len() - middle.len();
    let front = s.take(cut);
    let back = middle.skip(t.len() as int);
    assert(middle =~= t + back);
    assert(s =~= front + t + back);
    assert(blank(front) && blank(back));
    if t.len() > 0 {
        assert(t[0] == middle[0]);
    }
}

/// The first word ends before the first white space.
pub proof fn law_word_ends_before_white_space(s: Seq<char>)
    ensures
        ({
            let word = until_space(s);
            &&& word.len() <= s.len()
            &&& s.take(word.len() as int) == word
            &&& forall|i: int| 0 <= i < word.len() ==> !is_space(#[trigger] word[i])
            &&& word.len() < s.len() ==> is_space(s[word.len() as int])
        }),
    decreases s.len(),
{
    if s.len() > 0 && !is_space(s[0]) {
        let rest = s.drop_first();
        law_word_ends_before_white_space(rest);
        let word = until_space(s);
        assert(s.take(word.len() as int) =~= word) by {
            assert forall|i: int| 0 <= i < word.len() implies s[i] == word[i] by {
                if i > 0 {
                    assert(rest.take(word.len() - 1)[i - 1] == s[i]);
                }
            }
        }
        assert forall|i: int| 0 <= i < word.len() implies !is_space(#[trigger] word[i]) by {
            if i > 0 {
                assert(word[i] == until_space(rest)[i - 1]);
            }
        }
    } else {
        assert(s.take(0) =~= seq![]);
    }
}

/// Capital letters of the English alphabet have small ones, and every other character stands for
/// itself; two texts are the same but for case exactly where the small letters are.
pub proof fn law_case_is_that_of_english_letters(a: Seq<char>, b: Seq<char>, c: char)
    ensures
        'A' <= c <= 'Z' ==> lower(c) as int == c as int + ('a' as int - 'A' as int),
        !('A' <= c <= 'Z') ==> lower(c) == c,
        same_but_case(a, b) <==> a.map_values(|c: char| lower(c)) =~= b.map_values(
            |c: char| lower(c),
        ),
{
    let small_a = a.map_values(|c: char| lower(c));
    let small_b = b.map_values(|c: char| lower(c));
    if small_a =~= small_b {
        assert forall|i: int| 0 <= i < a.len() implies lower(#[trigger] a[i]) == lower(b[i]) by {
            assert(small_a[i] == small_b[i]);
        }
    }
}

/// Padding fills up with zeros in front, to that width where the text is shorter.
pub proof fn law_padding_is_zeros_in_front(s: Seq<char>, width: nat)
    ensures
        s.len() >= width ==> zero_padded(s, width) == s,
        s.len() < width ==> {
            let padded = zero_padded(s, width);
            &&& padded.len() == width
            &&& padded.skip(width - s.len()) == s
            &&& forall|i: int| 0 <= i < width - s.len() ==> #[trigger] padded[i] == '0'
        },
{
    if s.len() < width {
        assert(zero_padded(s, width).skip(width - s.len()) =~= s);
    }
}

/// What follows a prefix is what the prefix was put in front of.
pub proof fn law_prefix_is_taken_off(prefix: Seq<char>, rest: Seq<char>)
    ensures
        begins_with(prefix + rest, prefix),
        after_prefix(prefix + rest, prefix) == Some(rest),
{
    assert((prefix + rest).subrange(0, prefix.len() as int) =~= prefix);
    assert((prefix + rest).subrange(prefix.len() as int, (prefix + rest).len() as int) =~= rest);
}

/// A path that is joined to another one is below it, unless it is absolute; between them stands
/// exactly one slash.
pub proof fn law_joined_path_is_below(base: Seq<char>, path: Seq<char>)
    ensures
        path.len() > 0 && path[0] == '/' ==> path_within(base, path) == path,
        (path.len() == 0 || path[0] != '/') && base.len() > 0 && base.last() == '/' ==> path_within(
            base,
            path,
        ) == base + path,
        (path.len() == 0 || path[0] != '/') && base.len() > 0 && base.last() != '/' ==> path_within(
            base,
            path,
        ) == base.push('/') + path,
        (path.len() == 0 || path[0] != '/') && base.len() == 0 ==> path_within(base, path) == path,
{
    reveal_strlit("/");
    assert("/"@ =~= seq!['/']);
    if path.len() > 0 {
        assert(path.subrange(0, 1) =~= seq![path[0]]);
        assert(path.subrange(0, 1)[0] == path[0]);
        if path[0] == '/' {
            assert(begins_with(path, "/"@));
        } else if begins_with(path, "/"@) {
            assert(path.subrange(0, 1)[0] == "/"@[0]);
        }
    }
    assert(base + "/"@ + path =~= base.push('/') + path);
    assert(base.len() == 0 ==> base + path =~= path);
}

/// The name of a file in a directory is the name that was put behind the directory.
pub proof fn law_file_name_is_the_last_part(directory: Seq<char>, name: Seq<char>)
    requires
        name.len() > 0,
        !name.contains('/'),
        name != "."@,
        name != ".."@,
    ensures
        file_name_of(directory.push('/') + name) == Some(name),
        file_name_of(directory.push('/') + ".."@) is None,
{
    let named = |part: Seq<char>| part.len() != 0 && part != "."@;
    let parts = split(directory, '/');
    reveal_strlit(".");
    reveal_strlit("..");
    assert(!".."@.contains('/'));
    lemma_split_behind(directory, '/', name, 0);
    lemma_split_behind(directory, '/', ".."@, 0);
    reveal_with_fuel(Seq::filter, 2);
    assert(parts.push(name).drop_last() =~= parts);
    assert(parts.push(".."@).drop_last() =~= parts);
}

/// A text holds whatever stands in it, and nothing longer than it is.
pub proof fn law_text_holds_its_parts(before: Seq<char>, part: Seq<char>, behind: Seq<char>)
    ensures
        holds_text(before + part + behind, part),
        part.len() > before.len() ==> !holds_text(before, part),
        holds_text(before, part) ==> exists|front: Seq<char>, back: Seq<char>|
            before == #[trigger] (front + part + back),
{
    let all = before + part + behind;
    let at: int = before.len() as int;
    assert(all.subrange(at, at + part.len()) =~= part);
    if holds_text(before, part) {
        let i = choose|i: int|
            0 <= i <= before.len() - part.len() && #[trigger] before.subrange(i, i + part.len())
                == part;
        let front = before.take(i);
        let back = before.skip(i + part.len());
        assert(before =~= front + before.subrange(i, i + part.len()) + back);
    }
}

} // verus!
