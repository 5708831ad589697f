//! Laws of text and numbers.

use crate::digest;
use crate::number;
use crate::text;
use crate::text::Separator;
use vstd::prelude::*;
use vstd::utf8::*;

verus! {

/// `pieces` with a character of `marks` after each but the last.
pub open spec fn glued(pieces: Seq<Seq<char>>, marks: Seq<char>) -> Seq<char>
    decreases pieces.len(),
{
    if pieces.len() <= 1 {
        pieces[0]
    } else {
        pieces[0] + seq![marks[0]] + glued(pieces.drop_first(), marks.drop_first())
    }
}

/// At which characters a text is cut.
pub proof fn cuts_are_these(c: char)
    ensures
        text::cuts(Separator::Dot, c) <==> c == '.',
        text::cuts(Separator::Slash, c) <==> c == '/',
        text::cuts(Separator::SlashOrComma, c) <==> c == '/' || c == ',',
        text::cuts(Separator::Newline, c) <==> c == '\n',
        text::cuts(Separator::WhiteSpace, c) <==> text::is_white_space(c),
{
}

/// Splitting takes a text apart without loss: no piece has a cut in it, and the
/// pieces with the cuts between them are the text.
pub proof fn splitting_loses_nothing(s: Seq<char>, sep: Separator) -> (marks: Seq<char>)
    ensures
        text::split(s, sep).len() == marks.len() + 1,
        forall|i: int| 0 <= i < marks.len() ==> text::cuts(sep, #[trigger] marks[i]),
        forall|i: int, j: int|
            0 <= i < text::split(s, sep).len() && 0 <= j < text::split(s, sep)[i].len()
                ==> !text::cuts(sep, #[trigger] text::split(s, sep)[i][j]),
        glued(text::split(s, sep), marks) == s,
    decreases s.len(),
{
    let n = text::find(s, sep) as int;
    lemma_no_cut_before(s, sep);
    text::lemma_find_cuts(s, sep);
    let pieces = text::split(s, sep);
    if n < s.len() {
        let others = splitting_loses_nothing(s.skip(n + 1), sep);
        let rest = text::split(s.skip(n + 1), sep);
        assert(pieces.drop_first() == rest);
        let marks = seq![s[n]] + others;
        assert(marks.drop_first() == others);
        assert forall|i: int, j: int|
            0 <= i < pieces.len() && 0 <= j < pieces[i].len() implies !text::cuts(
            sep,
            #[trigger] pieces[i][j],
        ) by {
            if i > 0 {
                assert(pieces[i] == rest[i - 1]);
            }
        }
        assert(glued(pieces, marks) == s.take(n) + seq![s[n]] + s.skip(n + 1));
        marks
    } else {
        Seq::empty()
    }
}

/// Nothing before the first cut is a cut.
pub proof fn lemma_no_cut_before(s: Seq<char>, sep: Separator)
    ensures
        text::find(s, sep) <= s.len(),
        forall|j: int| 0 <= j < text::find(s, sep) ==> !text::cuts(sep, #[trigger] s[j]),
    decreases s.len(),
{
    if s.len() > 0 && !text::cuts(sep, s[0]) {
        lemma_no_cut_before(s.drop_first(), sep);
        assert forall|j: int| 0 <= j < text::find(s, sep) implies !text::cuts(
            sep,
            #[trigger] s[j],
        ) by {
            if j > 0 {
                assert(s[j] == s.drop_first()[j - 1]);
            }
        }
    }
}

/// A text is taken apart in one way only: pieces without a cut in them, with
/// cuts between them, are the pieces of what they make up.
pub proof fn glued_pieces_come_apart(
    pieces: Seq<Seq<char>>,
    marks: Seq<char>,
    sep: Separator,
)
    requires
        pieces.len() == marks.len() + 1,
        forall|i: int| 0 <= i < marks.len() ==> text::cuts(sep, #[trigger] marks[i]),
        forall|i: int, j: int|
            0 <= i < pieces.len() && 0 <= j < pieces[i].len() ==> !text::cuts(
                sep,
                #[trigger] pieces[i][j],
            ),
    ensures
        text::split(glued(pieces, marks), sep) == pieces,
    decreases pieces.len(),
{
    if pieces.len() == 1 {
        text::lemma_split_whole(pieces[0], sep);
        assert(pieces == seq![pieces[0]]);
    } else {
        let rest = pieces.drop_first();
        let others = marks.drop_first();
        assert forall|i: int, j: int|
            0 <= i < rest.len() && 0 <= j < rest[i].len() implies !text::cuts(
            sep,
            #[trigger] rest[i][j],
        ) by {
            assert(rest[i] == pieces[i + 1]);
            assert(!text::cuts(sep, pieces[i + 1][j]));
        }
        assert forall|i: int| 0 <= i < others.len() implies text::cuts(
            sep,
            #[trigger] others[i],
        ) by {
            assert(others[i] == marks[i + 1]);
        }
        glued_pieces_come_apart(rest, others, sep);
        text::lemma_split_at(pieces[0], marks[0], glued(rest, others), sep);
        assert(pieces == seq![pieces[0]] + rest);
    }
}

/// The words of a text are found one after the other: white space separates
/// them, however much of it there is.
pub proof fn words_are_separated_by_white_space(word: Seq<char>, gap: char, rest: Seq<char>)
    requires
        word.len() > 0,
        forall|i: int| 0 <= i < word.len() ==> !text::is_white_space(#[trigger] word[i]),
        text::is_white_space(gap),
    ensures
        text::words(Seq::empty()) == Seq::<Seq<char>>::empty(),
        text::words(word) == seq![word],
        text::words(seq![gap] + rest) == text::words(rest),
        text::words(word + seq![gap] + rest) == seq![word] + text::words(rest),
{
    let none = Seq::<char>::empty();
    let nothing = Seq::<Seq<char>>::empty();
    text::lemma_split_whole(none, Separator::WhiteSpace);
    lemma_empty_first(nothing);
    assert(seq![none] + nothing == seq![none]);
    text::lemma_split_whole(word, Separator::WhiteSpace);
    text::lemma_non_empty_first(word, nothing);
    assert(seq![word] + nothing == seq![word]);
    text::lemma_split_at(none, gap, rest, Separator::WhiteSpace);
    assert(none + seq![gap] + rest == seq![gap] + rest);
    lemma_empty_first(text::split(rest, Separator::WhiteSpace));
    text::lemma_split_at(word, gap, rest, Separator::WhiteSpace);
    text::lemma_non_empty_first(word, text::split(rest, Separator::WhiteSpace));
}

/// An empty text at the beginning of a list is dropped.
pub proof fn lemma_empty_first(rest: Seq<Seq<char>>)
    ensures
        text::non_empty(seq![Seq::<char>::empty()] + rest) == text::non_empty(rest),
    decreases rest.len(),
{
    let all = seq![Seq::<char>::empty()] + rest;
    if rest.len() == 0 {
        assert(all.drop_last() == Seq::<Seq<char>>::empty());
        assert(all.last().len() == 0);
        assert(rest == Seq::<Seq<char>>::empty());
    } else {
        lemma_empty_first(rest.drop_last());
        assert(all.drop_last() == seq![Seq::<char>::empty()] + rest.drop_last());
        assert(all.last() == rest.last());
    }
}

/// The lines of a text are found one after the other. A line ends before its
/// line feed, and before a carriage return in front of that; the last one need
/// not end.
pub proof fn lines_end_with_line_feeds(line: Seq<char>, rest: Seq<char>)
    requires
        forall|i: int| 0 <= i < line.len() ==> #[trigger] line[i] != '\n',
    ensures
        text::lines(Seq::empty()) == Seq::<Seq<char>>::empty(),
        line.len() > 0 ==> text::lines(line) == seq![line],
        text::lines(line + seq!['\r', '\n'] + rest) == seq![line] + text::lines(rest),
        line.len() == 0 || line.last() != '\r' ==> text::lines(line + seq!['\n'] + rest) == seq![
            line,
        ] + text::lines(rest),
{
    if line.len() > 0 {
        text::lemma_one_line(line);
    }
    lemma_line(line, rest);
    let returned = line.push('\r');
    assert(returned + seq!['\n'] + rest == line + seq!['\r', '\n'] + rest);
    lemma_line(returned, rest);
    assert(returned.drop_last() == line);
}

proof fn lemma_line(line: Seq<char>, rest: Seq<char>)
    requires
        forall|i: int| 0 <= i < line.len() ==> #[trigger] line[i] != '\n',
    ensures
        text::lines(line + seq!['\n'] + rest) == seq![text::without_carriage_return(line)]
            + text::lines(rest),
{
    let s = line + seq!['\n'] + rest;
    assert forall|i: int| 0 <= i < line.len() implies !text::cuts(
        Separator::Newline,
        #[trigger] s[i],
    ) by {
        assert(s[i] == line[i]);
    }
    text::lemma_find_is(s, Separator::Newline, line.len());
    assert(s.take(line.len() as int) == line);
    assert(s.skip(line.len() as int + 1) == rest);
}

/// Trimming takes white space away at the two ends, all of it and nothing else.
pub proof fn trimming_takes_white_space_only(s: Seq<char>) -> (ends: (int, int))
    ensures
        0 <= ends.0 <= ends.1 <= s.len(),
        text::trim(s) == s.subrange(ends.0, ends.1),
        forall|i: int| 0 <= i < ends.0 ==> text::is_white_space(#[trigger] s[i]),
        forall|i: int| ends.1 <= i < s.len() ==> text::is_white_space(#[trigger] s[i]),
        ends.0 < ends.1 ==> !text::is_white_space(s[ends.0]) && !text::is_white_space(
            s[ends.1 - 1],
        ),
    decreases s.len(),
{
    if s.len() > 0 && text::is_white_space(s.first()) {
        let rest = s.drop_first();
        let (a, b) = trimming_takes_white_space_only(rest);
        assert(s.subrange(a + 1, b + 1) == rest.subrange(a, b));
        assert forall|i: int| 0 <= i < a + 1 implies text::is_white_space(#[trigger] s[i]) by {
            if i > 0 {
                assert(s[i] == rest[i - 1]);
            }
        }
        assert forall|i: int| b + 1 <= i < s.len() implies text::is_white_space(
            #[trigger] s[i],
        ) by {
            assert(s[i] == rest[i - 1]);
        }
        (a + 1, b + 1)
    } else if s.len() > 0 && text::is_white_space(s.last()) {
        let rest = s.drop_last();
        let (a, b) = trimming_takes_white_space_only(rest);
        assert(s.subrange(a, b) == rest.subrange(a, b));
        assert(rest.len() > 0 ==> rest.first() == s.first());
        assert(text::trim(s) == text::trim(rest));
        assert forall|i: int| 0 <= i < a implies text::is_white_space(#[trigger] s[i]) by {
            assert(s[i] == rest[i]);
        }
        assert forall|i: int| b <= i < s.len() implies text::is_white_space(#[trigger] s[i]) by {
            if i < rest.len() {
                assert(s[i] == rest[i]);
            }
        }
        (a, b)
    } else {
        assert(s.subrange(0, s.len() as int) == s);
        (0, s.len() as int)
    }
}

/// A text is found in another exactly if the other is the text with something
/// before and after it.
pub proof fn contained_means_surrounded(
    before: Seq<char>,
    needle: Seq<char>,
    after: Seq<char>,
    s: Seq<char>,
)
    ensures
        text::contains(before + needle + after, needle),
        text::contains(s, needle) ==> exists|a: Seq<char>, b: Seq<char>|
            s == #[trigger] (a + needle + b),
{
    let all = before + needle + after;
    let n = before.len() as int;
    assert(all.subrange(n, n + needle.len()) == needle);
    assert(text::occurs_at(all, needle, n));
    if text::contains(s, needle) {
        let i = choose|i: int| text::occurs_at(s, needle, i);
        let a = s.take(i);
        let b = s.skip(i + needle.len());
        assert(s == (a + needle) + b);
    }
}

/// In lower case the ASCII letters `A` to `Z` of an ASCII text become `a` to `z`,
/// and everything else stays.
pub proof fn lower_case_of_ascii(s: Seq<char>, i: int)
    requires
        is_ascii_chars(s),
        0 <= i < s.len(),
    ensures
        text::lowercase(s).len() == s.len(),
        'A' <= s[i] <= 'Z' ==> text::lowercase(s)[i] as int == s[i] as int - 'A' as int
            + 'a' as int,
        !('A' <= s[i] <= 'Z') ==> text::lowercase(s)[i] == s[i],
{
}

/// A digit more makes a number ten times as large and adds the digit. A number
/// over the limit is none.
pub proof fn reading_goes_digit_by_digit(s: Seq<char>, d: char, max: nat, value: nat)
    requires
        '0' <= d <= '9',
        number::parse(s, max) == Some(value),
    ensures
        ({
            let more = 10 * value + (d as int - '0' as int);
            number::parse(s.push(d), max) == if more <= max {
                Some(more as nat)
            } else {
                None
            }
        }),
{
    let longer = s.push(d);
    let digits = number::without_plus(s);
    assert(number::without_plus(longer) == digits.push(d));
    assert(digits.push(d).drop_last() == digits);
    assert forall|i: int| 0 <= i < digits.push(d).len() implies number::is_digit(
        #[trigger] digits.push(d)[i],
    ) by {
        if i < digits.len() {
            assert(digits.push(d)[i] == digits[i]);
        }
    }
}

/// What a longer numeral begins with is a numeral of its tenth, or nothing but
/// the plus sign.
pub proof fn shorter_numerals_are_smaller(s: Seq<char>, d: char, max: nat)
    ensures
        number::parse(s.push(d), max) matches Some(n) ==> s.len() == 0 || s == seq!['+']
            || number::parse(s, max) == Some(n / 10),
{
    let digits = number::without_plus(s);
    let longer = number::without_plus(s.push(d));
    if s.len() > 0 && s != seq!['+'] && number::parse(s.push(d), max) is Some {
        assert(longer == digits.push(d));
        assert(longer.drop_last() == digits);
        assert forall|i: int| 0 <= i < digits.len() implies number::is_digit(
            #[trigger] digits[i],
        ) by {
            assert(longer[i] == digits[i]);
        }
        assert(number::is_digit(longer[longer.len() - 1]));
        if digits.len() == 0 {
            assert(s == seq!['+']);
        }
    }
}

/// One digit is its own value, a plus sign in front changes nothing, and only
/// digits make a number.
pub proof fn only_digits_make_a_number(d: char, max: nat, s: Seq<char>)
    requires
        max >= 9,
    ensures
        '0' <= d <= '9' ==> number::parse(seq![d], max) == Some((d as int - '0' as int) as nat),
        s.len() > 0 && '0' <= s[0] <= '9' ==> number::parse(seq!['+'] + s, max) == number::parse(
            s,
            max,
        ),
        number::parse(s, max) matches Some(n) ==> {
            &&& n <= max
            &&& s.len() > 0
            &&& '0' <= s.last() <= '9'
            &&& forall|i: int|
                1 <= i < s.len() ==> '0' <= #[trigger] s[i] <= '9'
            &&& s[0] == '+' || '0' <= s[0] <= '9'
        },
{
    let one = seq![d];
    assert(number::without_plus(one) == if d == '+' {
        one.skip(1)
    } else {
        one
    });
    assert(one.drop_last() == Seq::<char>::empty());
    assert(number::decimal_value(one.drop_last()) == 0);
    if '0' <= d <= '9' {
        assert(number::decimal_value(one) == number::digit_value(d));
        assert(number::all_digits(one));
    }
    assert((seq!['+'] + s).skip(1) == s);
    if number::parse(s, max) is Some {
        let digits = number::without_plus(s);
        let skipped = s.len() - digits.len();
        assert forall|i: int| skipped <= i < s.len() implies '0' <= #[trigger] s[i] <= '9' by {
            assert(s[i] == digits[i - skipped]);
            assert(number::is_digit(digits[i - skipped]));
        }
    }
}

/// A number is written with the digits that read back as it: a digit by itself
/// below ten, and otherwise the last digit after the rest.
pub proof fn numbers_are_written_in_decimal(n: nat, d: nat)
    requires
        d < 10,
    ensures
        number::decimal(d) == seq![('0' as int + d) as char],
        n > 0 ==> number::decimal(10 * n + d) == number::decimal(n).push(('0' as int + d) as char),
        n > 0 ==> number::signed_decimal(-(n as int)) == seq!['-'] + number::decimal(n),
        number::signed_decimal(n as int) == number::decimal(n),
{
}

/// The hexadecimal form of bytes has for each byte the digit of its upper and
/// that of its lower four bits.
pub proof fn hexadecimal_digits(data: Seq<u8>, i: int)
    requires
        0 <= i < data.len(),
    ensures
        digest::hex(data).len() == 2 * data.len(),
        digest::hex(data)[2 * i] == "0123456789abcdef"@[data[i] as int / 16],
        digest::hex(data)[2 * i + 1] == "0123456789abcdef"@[data[i] as int % 16],
{
    reveal_strlit("0123456789abcdef");
}

} // verus!
