//! Text handling on sequences of characters.
//!
//! Each operation is a specification over `Seq<char>` and an executable
//! function on `&str` that is proved to compute it.

use vstd::prelude::*;
use vstd::string::*;
use vstd::utf8::*;

verus! {

/// A set of characters at which a text is cut.
#[derive(Clone, Copy, PartialEq, Eq, Structural)]
pub enum Separator {
    /// `.`
    Dot,
    /// `/`
    Slash,
    /// `/` or `,`
    SlashOrComma,
    /// A line feed.
    Newline,
    /// Any character with the Unicode property `White_Space`.
    WhiteSpace,
}

/// The characters with the Unicode property `White_Space`.
pub open spec fn is_white_space(c: char) -> bool {
    ||| '\u{9}' <= c <= '\u{d}'
    ||| c == ' '
    ||| c == '\u{85}'
    ||| c == '\u{a0}'
    ||| c == '\u{1680}'
    ||| '\u{2000}' <= c <= '\u{200a}'
    ||| c == '\u{2028}'
    ||| c == '\u{2029}'
    ||| c == '\u{202f}'
    ||| c == '\u{205f}'
    ||| c == '\u{3000}'
}

/// Whether a text is cut at `c`.
pub open spec fn cuts(sep: Separator, c: char) -> bool {
    match sep {
        Separator::Dot => c == '.',
        Separator::Slash => c == '/',
        Separator::SlashOrComma => c == '/' || c == ',',
        Separator::Newline => c == '\n',
        Separator::WhiteSpace => is_white_space(c),
    }
}

/// How many characters precede the first one at which `s` is cut; the length
/// of `s` if there is none.
pub open spec fn find(s: Seq<char>, sep: Separator) -> nat
    decreases s.len(),
{
    if s.len() == 0 || cuts(sep, s[0]) {
        0
    } else {
        1 + find(s.drop_first(), sep)
    }
}

/// The pieces of `s` between its cuts. There is always one piece more than
/// there are cuts, and pieces may be empty.
pub open spec fn split(s: Seq<char>, sep: Separator) -> Seq<Seq<char>>
    decreases s.len(),
{
    let n = find(s, sep) as int;
    if n < s.len() {
        seq![s.take(n)] + split(s.skip(n + 1), sep)
    } else {
        seq![s]
    }
}

/// The texts among `pieces` that are not empty, in order.
pub open spec fn non_empty(pieces: Seq<Seq<char>>) -> Seq<Seq<char>>
    decreases pieces.len(),
{
    if pieces.len() == 0 {
        seq![]
    } else if pieces.last().len() == 0 {
        non_empty(pieces.drop_last())
    } else {
        non_empty(pieces.drop_last()).push(pieces.last())
    }
}

/// The words of `s`: its maximal runs without white space.
pub open spec fn words(s: Seq<char>) -> Seq<Seq<char>> {
    non_empty(split(s, Separator::WhiteSpace))
}

/// A line without the carriage return that its line feed followed.
pub open spec fn without_carriage_return(s: Seq<char>) -> Seq<char> {
    if s.len() > 0 && s.last() == '\r' {
        s.drop_last()
    } else {
        s
    }
}

/// The lines of `s`, each without its ending. A line ends with a line feed or
/// with a carriage return and a line feed; the ending of the last line is
/// optional.
pub open spec fn lines(s: Seq<char>) -> Seq<Seq<char>>
    decreases s.len(),
{
    let n = find(s, Separator::Newline) as int;
    if s.len() == 0 {
        seq![]
    } else if n < s.len() {
        seq![without_carriage_return(s.take(n))] + lines(s.skip(n + 1))
    } else {
        seq![s]
    }
}

/// `s` without its leading white space.
pub open spec fn trim_start(s: Seq<char>) -> Seq<char>
    decreases s.len(),
{
    if s.len() > 0 && is_white_space(s.first()) {
        trim_start(s.drop_first())
    } else {
        s
    }
}

/// `s` without its trailing white space.
pub open spec fn trim_end(s: Seq<char>) -> Seq<char>
    decreases s.len(),
{
    if s.len() > 0 && is_white_space(s.last()) {
        trim_end(s.drop_last())
    } else {
        s
    }
}

/// `s` without leading and trailing white space.
pub open spec fn trim(s: Seq<char>) -> Seq<char> {
    trim_end(trim_start(s))
}

/// Whether `needle` stands in `s` at position `i`.
pub open spec fn occurs_at(s: Seq<char>, needle: Seq<char>, i: int) -> bool {
    &&& 0 <= i
    &&& i + needle.len() <= s.len()
    &&& s.subrange(i, i + needle.len()) == needle
}

/// Whether `needle` stands somewhere in `s`.
pub open spec fn contains(s: Seq<char>, needle: Seq<char>) -> bool {
    exists|i: int| occurs_at(s, needle, i)
}

/// The position of the last `c` in `s`, or -1 if there is none.
pub open spec fn last_position(s: Seq<char>, c: char) -> int
    decreases s.len(),
{
    if s.len() == 0 {
        -1
    } else if s.last() == c {
        s.len() - 1
    } else {
        last_position(s.drop_last(), c)
    }
}

/// The lower case of an ASCII character.
pub open spec fn ascii_lower(c: char) -> char {
    if 'A' <= c <= 'Z' {
        (c as int + 32) as char
    } else {
        c
    }
}

/// An ASCII text with its letters in lower case.
pub open spec fn ascii_lowercase(s: Seq<char>) -> Seq<char> {
    Seq::new(s.len(), |i: int| ascii_lower(s[i]))
}

/// Whether the first `n` characters of `s` are ASCII.
pub open spec fn is_ascii_up_to(s: Seq<char>, n: int) -> bool {
    0 <= n <= s.len() && is_ascii_chars(s.take(n))
}

/// Whether `s` begins as the lower case of a character beyond ASCII does: with a
/// character beyond ASCII, with the `k` of the Kelvin sign, or with the `i` and
/// the combining dot of the dotted capital I.
pub open spec fn begins_beyond_ascii(s: Seq<char>) -> bool {
    &&& s.len() > 0
    &&& {
        ||| s[0] > '\u{7f}'
        ||| s[0] == 'k'
        ||| s[0] == 'i' && s.len() > 1 && s[1] == '\u{307}'
    }
}

/// Whether `lower` can be the lower case of `s` as far as the ASCII characters go
/// that `s` begins with: each is mapped by itself, and the lower case of
/// something beyond ASCII follows the last one.
pub open spec fn keeps_ascii_run(s: Seq<char>, lower: Seq<char>) -> bool {
    forall|n: int| #[trigger]
        is_ascii_up_to(s, n) && n < s.len() ==> if s[n] <= '\u{7f}' {
            n < lower.len() && lower[n] == ascii_lower(s[n])
        } else {
            n <= lower.len() && begins_beyond_ascii(lower.skip(n))
        }
}

/// The lower case of a text, as `str::to_lowercase` gives it, where the text
/// goes beyond ASCII.
pub uninterp spec fn unicode_lowercase(s: Seq<char>) -> Seq<char>;

/// The lower case of a text. What `str::to_lowercase` gives beyond ASCII always
/// keeps the run of ASCII characters; the definition says so, for proofs in which
/// nothing is put in lower case.
pub open spec fn lowercase(s: Seq<char>) -> Seq<char> {
    if is_ascii_chars(s) || !keeps_ascii_run(s, unicode_lowercase(s)) {
        ascii_lowercase(s)
    } else {
        unicode_lowercase(s)
    }
}

/// Calls `str::to_lowercase`. Claims that it maps the letters `A` to `Z` of an
/// ASCII text to `a` to `z` and keeps its other characters, and that on any
/// other text its result is a function of the text. Of such a text the ASCII
/// characters that it begins with are mapped in the same way, each by itself;
/// what follows them is the lower case of the first character beyond ASCII.
/// According to the Unicode Character Database, by which the mapping of a
/// character is defined, that begins with an ASCII character for two characters
/// only: the Kelvin sign becomes `k`, and U+0130 becomes `i` and U+0307.
#[verifier::external_body]
fn std_to_lowercase(s: &str) -> (r: String)
    ensures
        is_ascii_chars(s@) ==> r@ == ascii_lowercase(s@),
        !is_ascii_chars(s@) ==> r@ == unicode_lowercase(s@),
        keeps_ascii_run(s@, r@),
{
    s.to_lowercase()
}

/// The lower case of every text keeps the run of ASCII characters that the text
/// begins with.
pub proof fn lowercase_keeps_ascii_run(s: Seq<char>)
    ensures
        keeps_ascii_run(s, lowercase(s)),
{
    assert forall|n: int| #[trigger] is_ascii_up_to(s, n) && n < s.len() && s[n] > '\u{7f}' implies
        begins_beyond_ascii(ascii_lowercase(s).skip(n)) by {
        assert(ascii_lowercase(s).skip(n)[0] == s[n]);
    }
}

/// A text whose lower case is ASCII without a `k` or an `i` in it is ASCII.
pub proof fn lemma_lowercase_is_ascii(s: Seq<char>)
    requires
        is_ascii_chars(lowercase(s)),
        forall|i: int|
            0 <= i < lowercase(s).len() ==> #[trigger] lowercase(s)[i] != 'k' && lowercase(s)[i]
                != 'i',
    ensures
        is_ascii_chars(s),
{
    lowercase_keeps_ascii_run(s);
    lemma_ascii_run_goes_on(s, s.len() as int);
    assert(s.take(s.len() as int) == s);
}

proof fn lemma_ascii_run_goes_on(s: Seq<char>, n: int)
    requires
        0 <= n <= s.len(),
        keeps_ascii_run(s, lowercase(s)),
        is_ascii_chars(lowercase(s)),
        forall|i: int|
            0 <= i < lowercase(s).len() ==> #[trigger] lowercase(s)[i] != 'k' && lowercase(s)[i]
                != 'i',
    ensures
        is_ascii_up_to(s, n),
    decreases n,
{
    if n > 0 {
        lemma_ascii_run_goes_on(s, n - 1);
        let lower = lowercase(s);
        if s[n - 1] > '\u{7f}' {
            assert(lower.skip(n - 1)[0] == lower[n - 1]);
        }
        assert forall|i: int| 0 <= i < n implies '\0' <= #[trigger] s.take(n)[i] <= '\u{7f}' by {
            if i < n - 1 {
                assert(s.take(n)[i] == s.take(n - 1)[i]);
            }
        }
    }
}

/// The lower case of `s`.
pub fn to_lower(s: &str) -> (r: String)
    ensures
        r@ == lowercase(s@),
{
    std_to_lowercase(s)
}

/// What `String::from_utf8_lossy` makes of bytes that are not UTF-8.
pub uninterp spec fn repaired_utf8(bytes: Seq<u8>) -> Seq<char>;

/// The text in `bytes`, taken as UTF-8.
pub open spec fn lossy_text(bytes: Seq<u8>) -> Seq<char> {
    if valid_utf8(bytes) {
        decode_utf8(bytes)
    } else {
        repaired_utf8(bytes)
    }
}

/// Calls `String::from_utf8_lossy`. Claims that it decodes valid UTF-8, and
/// that on any other bytes its result is a function of the bytes.
#[verifier::external_body]
fn std_from_utf8_lossy(bytes: &[u8]) -> (r: String)
    ensures
        valid_utf8(bytes@) ==> r@ == decode_utf8(bytes@),
        !valid_utf8(bytes@) ==> r@ == repaired_utf8(bytes@),
{
    String::from_utf8_lossy(bytes).into_owned()
}

/// The text in `bytes`, taken as UTF-8.
pub fn text_from_utf8(bytes: &[u8]) -> (r: String)
    ensures
        r@ == lossy_text(bytes@),
{
    std_from_utf8_lossy(bytes)
}

/// Appends a character to a `String`, as `String::push` is documented to.
pub assume_specification[ String::push ](s: &mut String, c: char)
    ensures
        final(s)@ == old(s)@.push(c),
;

/// The characters of `s`.
pub fn chars(s: &str) -> (r: Vec<char>)
    ensures
        r@ == s@,
{
    let mut r: Vec<char> = Vec::new();
    for c in it: s.chars()
        invariant
            it.seq() == s@,
            r@ == s@.take(it.index() as int),
    {
        r.push(c);
    }
    r
}

/// The characters of `cs` from position `from` up to `to`, as a `String`.
pub fn substring(cs: &Vec<char>, from: usize, to: usize) -> (r: String)
    requires
        from <= to <= cs@.len(),
    ensures
        r@ == cs@.subrange(from as int, to as int),
{
    let mut r = String::new();
    let mut i: usize = from;
    while i < to
        invariant
            from <= i <= to <= cs@.len(),
            r@ == cs@.subrange(from as int, i as int),
        decreases to - i,
    {
        r.push(cs[i]);
        i = i + 1;
    }
    r
}

/// Whether `c` has the Unicode property `White_Space`.
pub fn is_white(c: char) -> (r: bool)
    ensures
        r == is_white_space(c),
{
    ('\u{9}' <= c && c <= '\u{d}') || c == ' ' || c == '\u{85}' || c == '\u{a0}' || c == '\u{1680}'
        || ('\u{2000}' <= c && c <= '\u{200a}') || c == '\u{2028}' || c == '\u{2029}' || c
        == '\u{202f}' || c == '\u{205f}' || c == '\u{3000}'
}

fn is_cut(sep: Separator, c: char) -> (r: bool)
    ensures
        r == cuts(sep, c),
{
    match sep {
        Separator::Dot => c == '.',
        Separator::Slash => c == '/',
        Separator::SlashOrComma => c == '/' || c == ',',
        Separator::Newline => c == '\n',
        Separator::WhiteSpace => is_white(c),
    }
}

/// The first cut of `s` stands at `n` if nothing before `n` is a cut.
pub proof fn lemma_find_is(s: Seq<char>, sep: Separator, n: nat)
    requires
        n <= s.len(),
        forall|j: int| 0 <= j < n ==> !cuts(sep, #[trigger] s[j]),
        n < s.len() ==> cuts(sep, s[n as int]),
    ensures
        find(s, sep) == n,
    decreases s.len(),
{
    if n > 0 {
        let t = s.drop_first();
        assert forall|j: int| 0 <= j < n - 1 implies !cuts(sep, #[trigger] t[j]) by {
            assert(t[j] == s[j + 1]);
        }
        lemma_find_is(t, sep, (n - 1) as nat);
    }
}

/// Where `s` is cut first, it is cut; where it is not cut, `find` gives its
/// length.
pub proof fn lemma_find_cuts(s: Seq<char>, sep: Separator)
    ensures
        find(s, sep) <= s.len(),
        find(s, sep) < s.len() ==> cuts(sep, s[find(s, sep) as int]),
    decreases s.len(),
{
    if s.len() > 0 && !cuts(sep, s[0]) {
        lemma_find_cuts(s.drop_first(), sep);
    }
}

/// The first piece of a text is what precedes its first cut.
pub proof fn lemma_split_first(s: Seq<char>, sep: Separator)
    ensures
        split(s, sep).len() > 0,
        split(s, sep)[0] == s.take(find(s, sep) as int),
{
    lemma_find_cuts(s, sep);
    if find(s, sep) == s.len() {
        assert(s.take(find(s, sep) as int) == s);
    }
}

/// The position of the first character of `cs` at or after `from` at which it
/// is cut; the length of `cs` if there is none.
fn next_cut(cs: &Vec<char>, from: usize, sep: Separator) -> (r: usize)
    requires
        from <= cs@.len(),
    ensures
        from <= r <= cs@.len(),
        r - from == find(cs@.skip(from as int), sep),
{
    let mut i: usize = from;
    while i < cs.len() && !is_cut(sep, cs[i])
        invariant
            from <= i <= cs@.len(),
            forall|j: int| from <= j < i ==> !cuts(sep, #[trigger] cs@[j]),
        decreases cs@.len() - i,
    {
        i = i + 1;
    }
    proof {
        let rest = cs@.skip(from as int);
        assert forall|j: int| 0 <= j < i - from implies !cuts(sep, #[trigger] rest[j]) by {
            assert(rest[j] == cs@[from + j]);
        }
        lemma_find_is(rest, sep, (i - from) as nat);
    }
    i
}

/// The pieces of `s` between its cuts.
pub fn split_text(s: &str, sep: Separator) -> (r: Vec<String>)
    ensures
        r.deep_view() == split(s@, sep),
{
    let cs = chars(s);
    let mut r: Vec<String> = Vec::new();
    let mut start: usize = 0;
    assert(s@.skip(0) == s@);
    loop
        invariant_except_break
            cs@ == s@,
            start <= cs@.len(),
            split(s@, sep) == r.deep_view() + split(s@.skip(start as int), sep),
        ensures
            split(s@, sep) == r.deep_view(),
        decreases s@.len() - start,
    {
        let end = next_cut(&cs, start, sep);
        let ghost before = r.deep_view();
        let ghost rest = s@.skip(start as int);
        let piece = substring(&cs, start, end);
        assert(piece@ == rest.take(end - start));
        r.push(piece);
        assert(r.deep_view() == before.push(piece@));
        if end == cs.len() {
            assert(piece@ == rest);
            assert(split(rest, sep) == seq![rest]);
            break;
        }
        assert(rest.skip(end - start + 1) == s@.skip(end + 1));
        start = end + 1;
    }
    r
}

/// The words of `s`.
pub fn split_words(s: &str) -> (r: Vec<String>)
    ensures
        r.deep_view() == words(s@),
{
    drop_empty(split_text(s, Separator::WhiteSpace))
}

/// The texts of `pieces` that are not empty, in order.
pub fn drop_empty(pieces: Vec<String>) -> (r: Vec<String>)
    ensures
        r.deep_view() == non_empty(pieces.deep_view()),
{
    let mut r: Vec<String> = Vec::new();
    let mut i: usize = 0;
    let ghost all = pieces.deep_view();
    assert(all.take(0) == Seq::<Seq<char>>::empty());
    while i < pieces.len()
        invariant
            i <= pieces@.len(),
            all == pieces.deep_view(),
            r.deep_view() == non_empty(all.take(i as int)),
        decreases pieces@.len() - i,
    {
        proof {
            assert(all.take(i + 1).drop_last() == all.take(i as int));
            assert(all.take(i + 1).last() == pieces@[i as int]@);
        }
        if !pieces[i].as_str().is_empty() {
            let ghost before = r.deep_view();
            r.push(pieces[i].clone());
            assert(r.deep_view() == before.push(pieces@[i as int]@));
        }
        i = i + 1;
    }
    assert(all.take(i as int) == all);
    r
}

/// The lines of `s`.
pub fn split_lines(s: &str) -> (r: Vec<String>)
    ensures
        r.deep_view() == lines(s@),
{
    let cs = chars(s);
    let mut r: Vec<String> = Vec::new();
    let mut start: usize = 0;
    assert(s@.skip(0) == s@);
    while start < cs.len()
        invariant
            cs@ == s@,
            start <= cs@.len(),
            lines(s@) == r.deep_view() + lines(s@.skip(start as int)),
        decreases cs@.len() - start,
    {
        let end = next_cut(&cs, start, Separator::Newline);
        let ghost before = r.deep_view();
        let ghost rest = s@.skip(start as int);
        if end < cs.len() {
            let stop: usize = if start < end && cs[end - 1] == '\r' { end - 1 } else { end };
            let line = substring(&cs, start, stop);
            assert(line@ == without_carriage_return(rest.take(end - start)));
            r.push(line);
            assert(r.deep_view() == before.push(line@));
            assert(rest.skip(end - start + 1) == s@.skip(end + 1));
            start = end + 1;
        } else {
            let line = substring(&cs, start, end);
            assert(line@ == rest);
            r.push(line);
            assert(r.deep_view() == before.push(line@));
            start = end;
            assert(s@.skip(start as int) == Seq::<char>::empty());
        }
    }
    assert(s@.skip(start as int) == Seq::<char>::empty());
    r
}

proof fn lemma_trim_start(s: Seq<char>, n: int)
    requires
        0 <= n <= s.len(),
        forall|j: int| 0 <= j < n ==> is_white_space(#[trigger] s[j]),
        n < s.len() ==> !is_white_space(s[n]),
    ensures
        trim_start(s) == s.skip(n),
    decreases s.len(),
{
    if n > 0 {
        let t = s.drop_first();
        assert forall|j: int| 0 <= j < n - 1 implies is_white_space(#[trigger] t[j]) by {
            assert(t[j] == s[j + 1]);
        }
        lemma_trim_start(t, n - 1);
        assert(is_white_space(s[0]));
        assert(t.skip(n - 1) == s.skip(n));
    } else {
        assert(s.skip(0) == s);
    }
}

proof fn lemma_trim_end(s: Seq<char>, n: int)
    requires
        0 <= n <= s.len(),
        forall|j: int| n <= j < s.len() ==> is_white_space(#[trigger] s[j]),
        0 < n ==> !is_white_space(s[n - 1]),
    ensures
        trim_end(s) == s.take(n),
    decreases s.len(),
{
    if n < s.len() {
        assert(is_white_space(s[s.len() - 1]));
        lemma_trim_end(s.drop_last(), n);
        assert(s.drop_last().take(n) == s.take(n));
    } else {
        assert(s.take(n) == s);
    }
}

/// `s` without leading and trailing white space.
pub fn trimmed(s: &str) -> (r: String)
    ensures
        r@ == trim(s@),
{
    let cs = chars(s);
    let mut start: usize = 0;
    while start < cs.len() && is_white(cs[start])
        invariant
            start <= cs@.len(),
            forall|j: int| 0 <= j < start ==> is_white_space(#[trigger] cs@[j]),
        decreases cs@.len() - start,
    {
        start = start + 1;
    }
    let mut end: usize = cs.len();
    while end > start && is_white(cs[end - 1])
        invariant
            start <= end <= cs@.len(),
            forall|j: int| end <= j < cs@.len() ==> is_white_space(#[trigger] cs@[j]),
        decreases end,
    {
        end = end - 1;
    }
    proof {
        lemma_trim_start(s@, start as int);
        let t = s@.skip(start as int);
        assert forall|j: int| end - start <= j < t.len() implies is_white_space(#[trigger] t[j]) by {
            assert(t[j] == cs@[start + j]);
        }
        lemma_trim_end(t, end - start);
        assert(t.take(end - start) == s@.subrange(start as int, end as int));
    }
    substring(&cs, start, end)
}

/// Whether the two texts are the same.
pub fn same(a: &str, b: &str) -> (r: bool)
    ensures
        r == (a@ == b@),
{
    let x = chars(a);
    let y = chars(b);
    assert(x@.subrange(0, x@.len() as int) == x@);
    x.len() == y.len() && stands_at(&x, &y, 0)
}

/// Whether `needle` stands in `s` at position `i`.
fn stands_at(s: &Vec<char>, needle: &Vec<char>, i: usize) -> (r: bool)
    requires
        i + needle@.len() <= s@.len(),
    ensures
        r == occurs_at(s@, needle@, i as int),
{
    let end: usize = s.len();
    let mut j: usize = 0;
    while j < needle.len()
        invariant
            j <= needle@.len(),
            end == s@.len(),
            i + needle@.len() <= end,
            forall|k: int| 0 <= k < j ==> s@[i + k] == #[trigger] needle@[k],
        decreases needle@.len() - j,
    {
        if s[i + j] != needle[j] {
            assert(s@.subrange(i as int, i + needle@.len())[j as int] == s@[i + j]);
            return false;
        }
        j = j + 1;
    }
    assert(s@.subrange(i as int, i + needle@.len()) == needle@);
    true
}

/// Whether `s` begins with `prefix`.
pub fn begins_with(s: &str, prefix: &str) -> (r: bool)
    ensures
        r == occurs_at(s@, prefix@, 0),
{
    let cs = chars(s);
    let p = chars(prefix);
    p.len() <= cs.len() && stands_at(&cs, &p, 0)
}

/// Whether `needle` stands somewhere in `s`.
pub fn has(s: &str, needle: &str) -> (r: bool)
    ensures
        r == contains(s@, needle@),
{
    let cs = chars(s);
    let n = chars(needle);
    let mut i: usize = 0;
    while i <= cs.len() && n.len() <= cs.len() - i
        invariant
            cs@ == s@,
            n@ == needle@,
            i <= cs@.len() + 1,
            forall|k: int| 0 <= k < i ==> !occurs_at(s@, needle@, k),
        decreases cs@.len() + 1 - i,
    {
        if stands_at(&cs, &n, i) {
            return true;
        }
        if i == cs.len() {
            return false;
        }
        i = i + 1;
    }
    false
}

/// The last `c` in `s` stands at `n` if nothing after `n` is a `c`.
pub proof fn lemma_last_position(s: Seq<char>, c: char, n: int)
    requires
        -1 <= n < s.len(),
        forall|j: int| n < j < s.len() ==> #[trigger] s[j] != c,
        0 <= n ==> s[n] == c,
    ensures
        last_position(s, c) == n,
    decreases s.len(),
{
    if n < s.len() - 1 {
        assert(s[s.len() - 1] != c);
        lemma_last_position(s.drop_last(), c, n);
    }
}

/// The text before and the text after the last `c` in `s`, or `None` if `s`
/// has none.
pub fn split_at_last(s: &str, c: char) -> (r: Option<(String, String)>)
    ensures
        match r {
            Some((left, right)) => {
                let n = last_position(s@, c);
                &&& 0 <= n < s@.len()
                &&& left@ == s@.take(n)
                &&& right@ == s@.skip(n + 1)
            },
            None => last_position(s@, c) == -1,
        },
{
    let cs = chars(s);
    let mut i: usize = cs.len();
    while i > 0
        invariant
            cs@ == s@,
            i <= cs@.len(),
            forall|j: int| i <= j < s@.len() ==> #[trigger] s@[j] != c,
        decreases i,
    {
        i = i - 1;
        if cs[i] == c {
            proof {
                lemma_last_position(s@, c, i as int);
            }
            let left = substring(&cs, 0, i);
            let right = substring(&cs, i + 1, cs.len());
            assert(left@ == s@.take(i as int));
            assert(right@ == s@.skip(i + 1));
            return Some((left, right));
        }
    }
    proof {
        lemma_last_position(s@, c, -1);
    }
    None
}

/// Whether `s` has something in it, and neither begins nor ends with white
/// space.
pub open spec fn is_trimmed(s: Seq<char>) -> bool {
    &&& s.len() > 0
    &&& !is_white_space(s.first())
    &&& !is_white_space(s.last())
}

/// White space before a trimmed text is all that trimming takes away.
pub proof fn lemma_trim_padded(pad: Seq<char>, s: Seq<char>)
    requires
        is_trimmed(s),
        forall|i: int| 0 <= i < pad.len() ==> is_white_space(#[trigger] pad[i]),
    ensures
        trim(pad + s) == s,
{
    let all = pad + s;
    assert forall|i: int| 0 <= i < pad.len() implies is_white_space(#[trigger] all[i]) by {
        assert(all[i] == pad[i]);
    }
    assert(all[pad.len() as int] == s.first());
    lemma_trim_start(all, pad.len() as int);
    assert(all.skip(pad.len() as int) == s);
    lemma_trim_end(s, s.len() as int);
    assert(s.take(s.len() as int) == s);
}

/// Trimming a text that begins with no white space keeps its first `n`
/// characters, if the last of these is no white space either.
pub proof fn lemma_trim_keeps(s: Seq<char>, n: int) -> (k: int)
    requires
        0 < n <= s.len(),
        !is_white_space(s[0]),
        !is_white_space(s[n - 1]),
    ensures
        n <= k <= s.len(),
        trim(s) == s.take(k),
    decreases s.len(),
{
    if is_white_space(s.last()) {
        let k = lemma_trim_keeps(s.drop_last(), n);
        assert(s.drop_last().take(k) == s.take(k));
        k
    } else {
        assert(s.take(s.len() as int) == s);
        s.len() as int
    }
}

/// A text without a line feed is its only line.
pub proof fn lemma_one_line(s: Seq<char>)
    requires
        s.len() > 0,
        forall|i: int| 0 <= i < s.len() ==> #[trigger] s[i] != '\n',
    ensures
        lines(s) == seq![s],
{
    lemma_find_is(s, Separator::Newline, s.len());
}

/// The first line of a text is what stands before its first line feed, unless
/// that ends with a carriage return.
pub proof fn lemma_first_line(line: Seq<char>, rest: Seq<char>)
    requires
        line.len() > 0,
        line.last() != '\r',
        forall|i: int| 0 <= i < line.len() ==> #[trigger] line[i] != '\n',
    ensures
        lines(line + seq!['\n'] + rest).len() > 0,
        lines(line + seq!['\n'] + rest)[0] == line,
{
    let s = line + seq!['\n'] + rest;
    assert forall|i: int| 0 <= i < line.len() implies !cuts(
        Separator::Newline,
        #[trigger] s[i],
    ) by {
        assert(s[i] == line[i]);
    }
    lemma_find_is(s, Separator::Newline, line.len());
    assert(s.take(line.len() as int) == line);
}

/// A text is cut first where the first cut is.
pub proof fn lemma_split_at(a: Seq<char>, c: char, rest: Seq<char>, sep: Separator)
    requires
        forall|i: int| 0 <= i < a.len() ==> !cuts(sep, #[trigger] a[i]),
        cuts(sep, c),
    ensures
        split(a + seq![c] + rest, sep) == seq![a] + split(rest, sep),
{
    let s = a + seq![c] + rest;
    assert forall|i: int| 0 <= i < a.len() implies !cuts(sep, #[trigger] s[i]) by {
        assert(s[i] == a[i]);
    }
    lemma_find_is(s, sep, a.len());
    assert(s.take(a.len() as int) == a);
    assert(s.skip(a.len() as int + 1) == rest);
}

/// A text without a cut is its only piece.
pub proof fn lemma_split_whole(s: Seq<char>, sep: Separator)
    requires
        forall|i: int| 0 <= i < s.len() ==> !cuts(sep, #[trigger] s[i]),
    ensures
        split(s, sep) == seq![s],
{
    lemma_find_is(s, sep, s.len());
}

/// The texts of a list that are not empty are those of its first element,
/// followed by those of the others.
pub proof fn lemma_non_empty_first(first: Seq<char>, rest: Seq<Seq<char>>)
    requires
        first.len() > 0,
    ensures
        non_empty(seq![first] + rest) == seq![first] + non_empty(rest),
    decreases rest.len(),
{
    let all = seq![first] + rest;
    if rest.len() == 0 {
        assert(all.drop_last() == Seq::<Seq<char>>::empty());
        assert(all.last() == first);
        assert(non_empty(all.drop_last()) == Seq::<Seq<char>>::empty());
        assert(non_empty(all) == seq![first]);
        assert(rest == Seq::<Seq<char>>::empty());
    } else {
        lemma_non_empty_first(first, rest.drop_last());
        assert(all.drop_last() == seq![first] + rest.drop_last());
        assert(all.last() == rest.last());
    }
}

/// The last position of `c` in `s` holds `c`, unless there is none.
pub proof fn lemma_last_position_is(s: Seq<char>, c: char)
    ensures
        -1 <= last_position(s, c) < s.len(),
        last_position(s, c) >= 0 ==> s[last_position(s, c)] == c,
    decreases s.len(),
{
    if s.len() > 0 && s.last() != c {
        lemma_last_position_is(s.drop_last(), c);
    }
}

} // verus!
