//! Laws of versions, listings and checksums.

use crate::laws::text as text_laws;
use crate::number;
use crate::text;
use crate::text::Separator;
use crate::versions;
use crate::versions::{
    ChecksumSource, ChecksumStepView, DriverBranch, DriverVersionView, ReplyView, VersionRelation,
};
use vstd::prelude::*;
use vstd::utf8::*;

verus! {

/// Numbers with dots between them.
pub open spec fn dotted(numbers: Seq<u32>) -> Seq<char> {
    text_laws::glued(
        Seq::new(numbers.len(), |i: int| number::decimal(numbers[i] as nat)),
        Seq::new((numbers.len() - 1) as nat, |i: int| '.'),
    )
}

proof fn lemma_numbers_first(piece: Seq<char>, rest: Seq<Seq<char>>)
    ensures
        versions::numbers(seq![piece] + rest) == (match number::parse(piece, 4294967295) {
            Some(n) => seq![n as u32],
            None => Seq::<u32>::empty(),
        }) + versions::numbers(rest),
    decreases rest.len(),
{
    let all = seq![piece] + rest;
    if rest.len() == 0 {
        assert(all.drop_last() == Seq::<Seq<char>>::empty());
        assert(versions::numbers(all.drop_last()) == Seq::<u32>::empty());
        assert(all.last() == piece);
        assert(versions::numbers(rest) == Seq::<u32>::empty());
    } else {
        lemma_numbers_first(piece, rest.drop_last());
        assert(all.drop_last() == seq![piece] + rest.drop_last());
        assert(all.last() == rest.last());
    }
}

/// The numbers of a version are those between its dots, from left to right; what
/// is no number of 32 bits is passed over.
pub proof fn numbers_stand_between_dots(piece: Seq<char>, rest: Seq<char>)
    requires
        forall|i: int| 0 <= i < piece.len() ==> #[trigger] piece[i] != '.',
    ensures
        versions::version_key(piece) == match number::parse(piece, 4294967295) {
            Some(n) => seq![n as u32],
            None => Seq::<u32>::empty(),
        },
        versions::version_key(piece + seq!['.'] + rest) == versions::version_key(piece)
            + versions::version_key(rest),
{
    text::lemma_split_whole(piece, Separator::Dot);
    text::lemma_split_at(piece, '.', rest, Separator::Dot);
    lemma_numbers_first(piece, text::split(rest, Separator::Dot));
    lemma_numbers_first(piece, Seq::empty());
    assert(seq![piece] + Seq::<Seq<char>>::empty() == seq![piece]);
    assert(versions::numbers(Seq::empty()) == Seq::<u32>::empty());
}

/// A version written out of numbers has these numbers.
pub proof fn dotted_numbers_are_read_back(numbers: Seq<u32>)
    requires
        numbers.len() > 0,
    ensures
        versions::version_key(dotted(numbers)) == numbers,
    decreases numbers.len(),
{
    let pieces = Seq::new(numbers.len(), |i: int| number::decimal(numbers[i] as nat));
    let marks = Seq::new((numbers.len() - 1) as nat, |i: int| '.');
    let first = number::decimal(numbers[0] as nat);
    number::decimal_is_numeral(numbers[0] as nat);
    number::parse_reads_decimal(numbers[0] as nat, 4294967295);
    assert forall|i: int| 0 <= i < first.len() implies #[trigger] first[i] != '.' by {
        assert(number::is_digit(first[i]));
    }
    if numbers.len() == 1 {
        numbers_stand_between_dots(first, Seq::empty());
        assert(numbers == seq![numbers[0]]);
    } else {
        let rest = numbers.drop_first();
        dotted_numbers_are_read_back(rest);
        assert(pieces.drop_first() == Seq::new(
            rest.len(),
            |i: int| number::decimal(rest[i] as nat),
        ));
        assert(marks.drop_first() == Seq::new((rest.len() - 1) as nat, |i: int| '.'));
        assert(dotted(numbers) == first + seq!['.'] + dotted(rest));
        numbers_stand_between_dots(first, dotted(rest));
        assert(numbers == seq![numbers[0]] + rest);
    }
}

/// The first number in which two keys differ decides, by its size.
pub proof fn first_difference_decides(a: Seq<u32>, b: Seq<u32>, n: int)
    requires
        0 <= n < a.len(),
        n < b.len(),
        forall|i: int| 0 <= i < n ==> #[trigger] a[i] == b[i],
        a[n] < b[n],
    ensures
        versions::precedes(a, b),
        !versions::precedes(b, a),
{
    versions::lemma_precedes_after_common(a, b, n);
    assert forall|i: int| 0 <= i < n implies #[trigger] b[i] == a[i] by {
        assert(a[i] == b[i]);
    }
    versions::lemma_precedes_after_common(b, a, n);
    assert(a.skip(n)[0] == a[n]);
    assert(b.skip(n)[0] == b[n]);
}

/// A key that goes on where another ends comes after it.
pub proof fn longer_key_comes_after(a: Seq<u32>, more: Seq<u32>)
    requires
        more.len() > 0,
    ensures
        versions::precedes(a, a + more),
        !versions::precedes(a + more, a),
{
    let b = a + more;
    let n = a.len() as int;
    versions::lemma_precedes_after_common(a, b, n);
    versions::lemma_precedes_after_common(b, a, n);
    assert(a.skip(n) == Seq::<u32>::empty());
    assert(b.skip(n) == more);
}

/// Of two versions the one with the larger number, where they first differ, is
/// the newer.
pub proof fn larger_number_is_newer(a: Seq<u32>, b: Seq<u32>, n: int)
    requires
        0 <= n < a.len(),
        n < b.len(),
        forall|i: int| 0 <= i < n ==> #[trigger] a[i] == b[i],
        a[n] < b[n],
    ensures
        versions::relation(dotted(a), dotted(b)) == VersionRelation::Newer,
        versions::relation(dotted(b), dotted(a)) == VersionRelation::Older,
{
    dotted_numbers_are_read_back(a);
    dotted_numbers_are_read_back(b);
    first_difference_decides(a, b, n);
}

/// Of two versions that agree as far as one goes, the one that goes on is the
/// newer; a version is the same as itself.
pub proof fn longer_version_is_newer(a: Seq<u32>, more: Seq<u32>)
    requires
        a.len() > 0,
        more.len() > 0,
    ensures
        versions::relation(dotted(a), dotted(a + more)) == VersionRelation::Newer,
        versions::relation(dotted(a + more), dotted(a)) == VersionRelation::Older,
        versions::relation(dotted(a), dotted(a)) == VersionRelation::Same,
{
    dotted_numbers_are_read_back(a);
    dotted_numbers_are_read_back(a + more);
    longer_key_comes_after(a, more);
    versions::order_is_total(a, a);
}

/// How two texts relate is a matter of their numbers: by the first difference,
/// by which goes on, the same if the numbers are, and unknown without numbers.
pub proof fn relation_follows_the_numbers(installed: Seq<char>, candidate: Seq<char>, n: int)
    ensures
        ({
            let a = versions::version_key(installed);
            let b = versions::version_key(candidate);
            let r = versions::relation(installed, candidate);
            &&& r == VersionRelation::Unknown <==> a.len() == 0 || b.len() == 0
            &&& r == VersionRelation::Same <==> a == b && a.len() > 0
            &&& (0 < a.len() && 0 < b.len() && 0 <= n <= a.len() && n <= b.len() && a.take(n)
                == b.take(n)) ==> {
                &&& n < a.len() && n < b.len() && a[n] < b[n] ==> r == VersionRelation::Newer
                &&& n < a.len() && n < b.len() && a[n] > b[n] ==> r == VersionRelation::Older
                &&& n == a.len() && n < b.len() ==> r == VersionRelation::Newer
                &&& n < a.len() && n == b.len() ==> r == VersionRelation::Older
            }
        }),
{
    let a = versions::version_key(installed);
    let b = versions::version_key(candidate);
    versions::same_means_equal_numbers(installed, candidate);
    if 0 < a.len() && 0 < b.len() && 0 <= n <= a.len() && n <= b.len() && a.take(n) == b.take(n) {
        assert forall|i: int| 0 <= i < n implies #[trigger] a[i] == b[i] by {
            assert(a.take(n)[i] == b.take(n)[i]);
        }
        assert forall|i: int| 0 <= i < n implies #[trigger] b[i] == a[i] by {
            assert(a[i] == b[i]);
        }
        if n < a.len() && n < b.len() {
            if a[n] < b[n] {
                first_difference_decides(a, b, n);
            } else if a[n] > b[n] {
                first_difference_decides(b, a, n);
            }
        } else if n < b.len() {
            assert(b == a + b.skip(n)) by {
                assert(a.take(n) == a);
            }
            longer_key_comes_after(a, b.skip(n));
        } else if n < a.len() {
            assert(a == b + a.skip(n)) by {
                assert(b.take(n) == b);
            }
            longer_key_comes_after(b, a.skip(n));
        }
    }
}

/// The branch of a version is that of the number before its first dot, and five
/// numbers have one.
pub proof fn five_majors_have_a_branch(major: Seq<char>, rest: Seq<char>)
    requires
        forall|i: int| 0 <= i < major.len() ==> #[trigger] major[i] != '.',
    ensures
        versions::branch_of(major + seq!['.'] + rest) == versions::branch_of(major),
        ({
            let number = number::parse(major, 4294967295);
            let branch = versions::branch_of(major);
            &&& branch == Some(DriverBranch::NewFeature) <==> number == Some(610nat)
            &&& branch == Some(DriverBranch::Production) <==> number == Some(595nat)
            &&& branch == Some(DriverBranch::LongTermSupport) <==> number == Some(580nat)
            &&& branch == Some(DriverBranch::Legacy) <==> number == Some(470nat) || number == Some(
                390nat,
            )
        }),
{
    let all = major + seq!['.'] + rest;
    assert forall|i: int| 0 <= i < major.len() implies !text::cuts(
        Separator::Dot,
        #[trigger] all[i],
    ) by {
        assert(all[i] == major[i]);
    }
    text::lemma_find_is(all, Separator::Dot, major.len());
    assert(all.take(major.len() as int) == major);
    text::lemma_find_is(major, Separator::Dot, major.len());
    assert(major.take(major.len() as int) == major);
}

/// Whether `s` is made of one ASCII digit or more.
pub open spec fn is_ascii_number(s: Seq<char>) -> bool {
    s.len() > 0 && forall|i: int| 0 <= i < s.len() ==> '0' <= #[trigger] s[i] <= '9'
}

proof fn lemma_version_of_parts(parts: Seq<Seq<char>>, marks: Seq<char>)
    requires
        2 <= parts.len() <= 3,
        marks.len() + 1 == parts.len(),
        forall|i: int| 0 <= i < marks.len() ==> #[trigger] marks[i] == '.',
        forall|i: int| 0 <= i < parts.len() ==> is_ascii_number(#[trigger] parts[i]),
    ensures
        versions::is_version(text_laws::glued(parts, marks)),
{
    assert forall|i: int, j: int|
        0 <= i < parts.len() && 0 <= j < parts[i].len() implies !text::cuts(
        Separator::Dot,
        #[trigger] parts[i][j],
    ) by {
        assert(is_ascii_number(parts[i]));
    }
    text_laws::glued_pieces_come_apart(parts, marks, Separator::Dot);
    assert forall|i: int| 0 <= i < parts.len() implies versions::is_number(
        #[trigger] parts[i],
    ) by {
        assert(is_ascii_number(parts[i]));
    }
}

/// Two or three numbers with dots between them are a version.
pub proof fn numbers_make_a_version(a: Seq<char>, b: Seq<char>, c: Seq<char>)
    requires
        is_ascii_number(a),
        is_ascii_number(b),
        is_ascii_number(c),
    ensures
        versions::is_version(a + seq!['.'] + b),
        versions::is_version(a + seq!['.'] + b + seq!['.'] + c),
        !versions::is_version(a),
{
    let two = seq![a, b];
    let dot = seq!['.'];
    assert(two.drop_first() == seq![b]);
    assert(text_laws::glued(two.drop_first(), dot.drop_first()) == b);
    assert(text_laws::glued(two, dot) == a + seq!['.'] + b);
    lemma_version_of_parts(two, dot);
    let three = seq![a, b, c];
    let dots = seq!['.', '.'];
    assert(three.drop_first() == seq![b, c]);
    assert(dots.drop_first() == seq!['.']);
    assert(seq![b, c].drop_first() == seq![c]);
    assert(text_laws::glued(seq![c], dot.drop_first()) == c);
    assert(text_laws::glued(seq![b, c], dot) == b + seq!['.'] + c);
    assert(text_laws::glued(three, dots) == a + seq!['.'] + b + seq!['.'] + c);
    lemma_version_of_parts(three, dots);
    assert forall|i: int| 0 <= i < a.len() implies !text::cuts(Separator::Dot, #[trigger] a[i]) by {
    }
    text::lemma_split_whole(a, Separator::Dot);
}

/// Only a text of two or three parts between dots is a version. No part is
/// empty, and none has an ASCII character in it that is no digit.
pub proof fn a_version_is_made_of_numbers(s: Seq<char>, i: int, j: int)
    requires
        versions::is_version(s),
        0 <= i < text::split(s, Separator::Dot).len(),
        0 <= j < text::split(s, Separator::Dot)[i].len(),
    ensures
        2 <= text::split(s, Separator::Dot).len() <= 3,
        text::split(s, Separator::Dot)[i][j] <= '\u{7f}' ==> '0' <= text::split(
            s,
            Separator::Dot,
        )[i][j] <= '9',
{
    assert(versions::is_number(text::split(s, Separator::Dot)[i]));
    assert(versions::is_decimal_digit(text::split(s, Separator::Dot)[i][j]));
}

/// The official name of an installer gives its version, and no other name gives
/// one.
pub proof fn installer_names(version: Seq<char>, filename: Seq<char>)
    ensures
        versions::is_version(version) ==> versions::version_of_filename(
            "NVIDIA-Linux-x86_64-"@ + version + ".run"@,
        ) == Some(version),
        versions::version_of_filename(filename) matches Some(v) ==> versions::is_version(v)
            && filename == "NVIDIA-Linux-x86_64-"@ + v + ".run"@,
{
    versions::filename_gives_version_back("NVIDIA-Linux-x86_64-"@ + version + ".run"@, version);
}

/// What is looked for in file names, in links and in pages.
pub proof fn patterns_are_these()
    ensures
        versions::FILENAME_PATTERN@ == r"^NVIDIA-Linux-x86_64-(\d+\.\d+(?:\.\d+)?)\.run$"@,
        versions::LINK_PATTERN@ == r"^(\d+\.\d+(?:\.\d+)?)/?$"@,
        versions::LINK_SELECTOR@ == "a[href]"@,
{
}

/// A link to a version, with or without a slash after it, leads to that version,
/// and no other link leads to one.
pub proof fn links_to_versions(version: Seq<char>, target: Seq<char>)
    ensures
        versions::is_version(version) ==> versions::version_of_link(version) == Some(version)
            && versions::version_of_link(version + seq!['/']) == Some(version),
        versions::version_of_link(target) matches Some(v) ==> versions::is_version(v) && (target
            == v || target == v + seq!['/']),
{
    let slashed = version + seq!['/'];
    assert(slashed.last() == '/');
    assert(slashed.drop_last() == version);
    if versions::is_version(slashed) {
        let parts = text::split(slashed, Separator::Dot);
        lemma_last_piece(slashed, Separator::Dot);
        let last = parts[parts.len() - 1];
        assert(versions::is_number(last));
        assert(versions::is_decimal_digit(last[last.len() - 1]));
        assert(last.last() == '/');
        assert(false);
    }
    if target.len() > 0 && target.last() == '/' {
        assert(target == target.drop_last() + seq!['/']);
    }
}

proof fn lemma_last_piece(s: Seq<char>, sep: Separator)
    requires
        s.len() > 0,
        !text::cuts(sep, s.last()),
    ensures
        text::split(s, sep).len() > 0,
        text::split(s, sep).last().len() > 0,
        text::split(s, sep).last().last() == s.last(),
    decreases s.len(),
{
    text::lemma_find_cuts(s, sep);
    let n = text::find(s, sep) as int;
    if n < s.len() {
        let rest = s.skip(n + 1);
        assert(rest.len() > 0);
        assert(rest.last() == s.last());
        lemma_last_piece(rest, sep);
        assert(text::split(s, sep).last() == text::split(rest, sep).last());
    }
}

/// A driver is found at the address of its version, under the installer's name.
pub proof fn drivers_are_found_by_version(version: Seq<char>)
    ensures
        versions::driver_of(version).version == version,
        versions::driver_of(version).filename == "NVIDIA-Linux-x86_64-"@ + version + ".run"@,
        versions::driver_of(version).url == "https://download.nvidia.com/XFree86/Linux-x86_64/"@
            + version + "/"@ + ("NVIDIA-Linux-x86_64-"@ + version + ".run"@),
        versions::driver_of(version).branch == versions::branch_of(version),
{
}

/// The links are taken one after the other: one more link adds its driver at the
/// end, if it leads to one, and changes no other.
pub proof fn links_are_taken_in_order(
    before: Seq<Option<Seq<char>>>,
    target: Seq<char>,
    version: Seq<char>,
)
    ensures
        versions::linked_drivers(Seq::empty()) == Seq::<DriverVersionView>::empty(),
        versions::linked_drivers(before.push(None)) == versions::linked_drivers(before),
        versions::version_of_link(target) is None ==> versions::linked_drivers(
            before.push(Some(target)),
        ) == versions::linked_drivers(before),
        versions::version_of_link(target) == Some(version) ==> versions::linked_drivers(
            before.push(Some(target)),
        ) == versions::linked_drivers(before).push(versions::driver_of(version)),
{
    assert(before.push(None).drop_last() == before);
    assert(before.push(Some(target)).drop_last() == before);
}

/// How many of `links` lead to a version.
pub open spec fn links_to_a_version(links: Seq<Option<Seq<char>>>) -> nat
    decreases links.len(),
{
    if links.len() == 0 {
        0
    } else {
        links_to_a_version(links.drop_last()) + (match links.last() {
            Some(target) => if versions::version_of_link(target) is Some {
                1nat
            } else {
                0nat
            },
            None => 0nat,
        })
    }
}

proof fn lemma_links_are_kept(links: Seq<Option<Seq<char>>>, i: int, target: Seq<char>)
    requires
        0 <= i < links.len(),
        links[i] == Some(target),
    ensures
        versions::version_of_link(target) matches Some(v) ==> versions::linked_drivers(
            links,
        ).contains(versions::driver_of(v)),
    decreases links.len(),
{
    let all = versions::linked_drivers(links);
    let rest = versions::linked_drivers(links.drop_last());
    if let Some(v) = versions::version_of_link(target) {
        if i < links.len() - 1 {
            lemma_links_are_kept(links.drop_last(), i, target);
            let k = choose|k: int| 0 <= k < rest.len() && rest[k] == versions::driver_of(v);
            assert(all[k] == rest[k]);
        } else {
            assert(all == rest.push(versions::driver_of(v)));
            assert(all[rest.len() as int] == versions::driver_of(v));
        }
    }
}

proof fn lemma_links_are_counted(links: Seq<Option<Seq<char>>>)
    ensures
        versions::linked_drivers(links).len() == links_to_a_version(links),
    decreases links.len(),
{
    if links.len() > 0 {
        lemma_links_are_counted(links.drop_last());
    }
}

proof fn lemma_drivers_come_from_links(links: Seq<Option<Seq<char>>>, k: int) -> (i: int)
    requires
        0 <= k < versions::linked_drivers(links).len(),
    ensures
        0 <= i < links.len(),
        links[i] matches Some(target) && versions::version_of_link(target) == Some(
            versions::linked_drivers(links)[k].version,
        ),
    decreases links.len(),
{
    let rest = versions::linked_drivers(links.drop_last());
    if k < rest.len() {
        let i = lemma_drivers_come_from_links(links.drop_last(), k);
        assert(links.drop_last()[i] == links[i]);
        i
    } else {
        links.len() - 1
    }
}

/// The list of a page is complete and holds nothing else: every link to a
/// version gives a driver of that version, there are as many drivers as such
/// links, and every driver has its link.
pub proof fn listing_is_complete(
    sorted: Seq<DriverVersionView>,
    links: Seq<Option<Seq<char>>>,
)
    requires
        versions::is_sorted_from(sorted, versions::linked_drivers(links)),
    ensures
        sorted.len() == links_to_a_version(links),
        forall|i: int, target: Seq<char>|
            0 <= i < links.len() && #[trigger] links[i] == Some(target) ==> (
            #[trigger] versions::version_of_link(target) matches Some(v) ==> exists|k: int|
                0 <= k < sorted.len() && (#[trigger] sorted[k]).version == v),
        forall|k: int|
            0 <= k < sorted.len() ==> exists|i: int|
                0 <= i < links.len() && (#[trigger] links[i] matches Some(target)
                    && versions::version_of_link(target) == Some((#[trigger] sorted[k]).version)),
{
    let list = versions::linked_drivers(links);
    versions::sorting_keeps_versions(sorted, list);
    lemma_links_are_counted(links);
    broadcast use vstd::seq_lib::group_to_multiset_ensures;

    assert forall|i: int, target: Seq<char>|
        0 <= i < links.len() && #[trigger] links[i] == Some(target) implies (
    #[trigger] versions::version_of_link(target) matches Some(v) ==> exists|k: int|
        0 <= k < sorted.len() && (#[trigger] sorted[k]).version == v) by {
        if let Some(v) = versions::version_of_link(target) {
            let d = versions::driver_of(v);
            lemma_links_are_kept(links, i, target);
            assert(list.to_multiset().count(d) > 0);
            assert(sorted.to_multiset().count(d) > 0);
            assert(sorted.contains(d));
            let k = choose|k: int| 0 <= k < sorted.len() && sorted[k] == d;
            assert(sorted[k].version == v);
        }
    }
    assert forall|k: int| 0 <= k < sorted.len() implies exists|i: int|
        0 <= i < links.len() && (#[trigger] links[i] matches Some(target)
            && versions::version_of_link(target) == Some((#[trigger] sorted[k]).version)) by {
        assert(sorted.contains(sorted[k]));
        assert(sorted.to_multiset().count(sorted[k]) > 0);
        assert(list.contains(sorted[k]));
        let j = choose|j: int| 0 <= j < list.len() && list[j] == sorted[k];
        let i = lemma_drivers_come_from_links(links, j);
        assert(links[i] matches Some(target) && versions::version_of_link(target) == Some(
            sorted[k].version,
        ));
    }
}

/// In a sorted list nothing has a larger number than what stands before it,
/// where the two first differ, and nothing goes on where what stands before it
/// ends.
pub proof fn sorted_lists_go_down(
    sorted: Seq<DriverVersionView>,
    list: Seq<DriverVersionView>,
    i: int,
    j: int,
    n: int,
)
    requires
        versions::is_sorted_from(sorted, list),
        0 <= i < j < sorted.len(),
    ensures
        ({
            let a = versions::version_key(sorted[i].version);
            let b = versions::version_key(sorted[j].version);
            0 <= n <= a.len() && n < b.len() && a.take(n) == b.take(n) ==> n < a.len() && a[n]
                >= b[n]
        }),
{
    let a = versions::version_key(sorted[i].version);
    let b = versions::version_key(sorted[j].version);
    if 0 <= n <= a.len() && n < b.len() && a.take(n) == b.take(n) {
        assert forall|k: int| 0 <= k < n implies #[trigger] a[k] == b[k] by {
            assert(a.take(n)[k] == b.take(n)[k]);
        }
        if n == a.len() {
            assert(a.take(n) == a);
            assert(b == a + b.skip(n));
            longer_key_comes_after(a, b.skip(n));
        } else if a[n] < b[n] {
            first_difference_decides(a, b, n);
        }
    }
}

proof fn lemma_with_key_index(
    list: Seq<DriverVersionView>,
    key: Seq<u32>,
    i: int,
) -> (p: int)
    requires
        0 <= i < list.len(),
        versions::version_key(list[i].version) == key,
    ensures
        p == versions::with_key(list.take(i), key).len(),
        0 <= p < versions::with_key(list, key).len(),
        versions::with_key(list, key)[p] == list[i],
    decreases list.len(),
{
    let rest = list.drop_last();
    if i < list.len() - 1 {
        let p = lemma_with_key_index(rest, key, i);
        assert(rest.take(i) == list.take(i));
        p
    } else {
        assert(list.take(i) == rest);
        versions::with_key(rest, key).len() as int
    }
}

proof fn lemma_with_key_grows(list: Seq<DriverVersionView>, key: Seq<u32>, i: int, j: int)
    requires
        0 <= i < j <= list.len(),
        versions::version_key(list[i].version) == key,
    ensures
        versions::with_key(list.take(i), key).len() < versions::with_key(list.take(j), key).len(),
    decreases j,
{
    assert(list.take(j).drop_last() == list.take(j - 1));
    assert(list.take(j).last() == list[j - 1]);
    if i < j - 1 {
        lemma_with_key_grows(list, key, i, j - 1);
    }
}

proof fn lemma_with_key_source(list: Seq<DriverVersionView>, key: Seq<u32>, p: int) -> (i: int)
    requires
        0 <= p < versions::with_key(list, key).len(),
    ensures
        0 <= i < list.len(),
        versions::with_key(list, key)[p] == list[i],
        versions::version_key(list[i].version) == key,
        p == versions::with_key(list.take(i), key).len(),
    decreases list.len(),
{
    let rest = list.drop_last();
    if p < versions::with_key(rest, key).len() {
        let i = lemma_with_key_source(rest, key, p);
        assert(rest.take(i) == list.take(i));
        i
    } else {
        assert(list.take(list.len() - 1) == rest);
        list.len() - 1
    }
}

/// Versions with equal numbers stay in the order in which they were listed.
pub proof fn sorting_is_stable(
    sorted: Seq<DriverVersionView>,
    list: Seq<DriverVersionView>,
    i: int,
    j: int,
) -> (places: (int, int))
    requires
        versions::is_sorted_from(sorted, list),
        0 <= i < j < sorted.len(),
        versions::version_key(sorted[i].version) == versions::version_key(sorted[j].version),
    ensures
        0 <= places.0 < places.1 < list.len(),
        list[places.0] == sorted[i],
        list[places.1] == sorted[j],
{
    let key = versions::version_key(sorted[i].version);
    let p = lemma_with_key_index(sorted, key, i);
    let q = lemma_with_key_index(sorted, key, j);
    lemma_with_key_grows(sorted, key, i, j);
    assert(versions::with_key(sorted, key) == versions::with_key(list, key));
    let a = lemma_with_key_source(list, key, p);
    let b = lemma_with_key_source(list, key, q);
    if b < a {
        lemma_with_key_grows(list, key, b, a);
    }
    (a, b)
}

/// Whether a line of a manifest gives the checksum `checksum` for `filename`: it
/// has the whole name in it, and begins with a word of 64 bytes.
pub open spec fn gives_checksum(
    line: Seq<char>,
    filename: Seq<char>,
    checksum: Seq<char>,
) -> bool {
    &&& exists|before: Seq<char>, after: Seq<char>| line == #[trigger] (before + filename + after)
    &&& text::words(line).len() > 0
    &&& text::words(line)[0] == checksum
    &&& encode_utf8(checksum).len() == 64
}

proof fn lemma_gives_checksum(line: Seq<char>, filename: Seq<char>)
    ensures
        text::contains(line, filename) && versions::leading_checksum(line) is Some
            <==> exists|c: Seq<char>| #[trigger] gives_checksum(line, filename, c),
        text::contains(line, filename) ==> (versions::leading_checksum(line) matches Some(c)
            ==> gives_checksum(line, filename, c)),
{
    text_laws::contained_means_surrounded(Seq::empty(), filename, Seq::empty(), line);
    if exists|c: Seq<char>| #[trigger] gives_checksum(line, filename, c) {
        let (before, after) = choose|before: Seq<char>, after: Seq<char>|
            line == #[trigger] (before + filename + after);
        text_laws::contained_means_surrounded(before, filename, after, line);
    }
    if text::contains(line, filename) && versions::leading_checksum(line) is Some {
        assert(gives_checksum(line, filename, versions::leading_checksum(line).unwrap()));
    }
}

/// The manifest is read line by line: the checksum is that of the first line
/// that gives one for the whole file name, and there is none only if no line
/// gives one.
pub proof fn first_line_that_names_the_file(lines: Seq<Seq<char>>, filename: Seq<char>)
    ensures
        match versions::listed_checksum(lines, filename) {
            Some(c) => exists|k: int|
                {
                    &&& 0 <= k < lines.len()
                    &&& gives_checksum(#[trigger] lines[k], filename, c)
                    &&& forall|j: int, other: Seq<char>|
                        0 <= j < k ==> !#[trigger] gives_checksum(lines[j], filename, other)
                },
            None => forall|j: int, other: Seq<char>|
                0 <= j < lines.len() ==> !#[trigger] gives_checksum(lines[j], filename, other),
        },
    decreases lines.len(),
{
    if lines.len() > 0 {
        let rest = lines.drop_first();
        lemma_gives_checksum(lines[0], filename);
        first_line_that_names_the_file(rest, filename);
        if text::contains(lines[0], filename) && versions::leading_checksum(lines[0]) is Some {
            let c = versions::leading_checksum(lines[0]).unwrap();
            assert(gives_checksum(lines[0], filename, c));
            assert(versions::listed_checksum(lines, filename) == Some(c));
        } else {
            assert(forall|other: Seq<char>| !gives_checksum(lines[0], filename, other));
            match versions::listed_checksum(rest, filename) {
                Some(c) => {
                    let k = choose|k: int|
                        {
                            &&& 0 <= k < rest.len()
                            &&& gives_checksum(#[trigger] rest[k], filename, c)
                            &&& forall|j: int, other: Seq<char>|
                                0 <= j < k ==> !#[trigger] gives_checksum(
                                    rest[j],
                                    filename,
                                    other,
                                )
                        };
                    assert(lines[k + 1] == rest[k]);
                    assert forall|j: int, other: Seq<char>|
                        0 <= j < k + 1 implies !#[trigger] gives_checksum(
                        lines[j],
                        filename,
                        other,
                    ) by {
                        if j > 0 {
                            assert(!gives_checksum(rest[j - 1], filename, other));
                        }
                    }
                    assert(gives_checksum(lines[k + 1], filename, c));
                },
                None => {
                    assert forall|j: int, other: Seq<char>|
                        0 <= j < lines.len() implies !#[trigger] gives_checksum(
                        lines[j],
                        filename,
                        other,
                    ) by {
                        if j > 0 {
                            assert(!gives_checksum(rest[j - 1], filename, other));
                        }
                    }
                },
            }
        }
    }
}

/// The file beside the installer gives its first word as the checksum, if that
/// has 64 bytes.
pub proof fn sidecar_gives_its_first_word(word: Seq<char>, gap: char, rest: Seq<char>)
    requires
        word.len() > 0,
        forall|i: int| 0 <= i < word.len() ==> !text::is_white_space(#[trigger] word[i]),
        text::is_white_space(gap),
    ensures
        versions::leading_checksum(Seq::empty()) is None,
        versions::leading_checksum(seq![gap] + rest) == versions::leading_checksum(rest),
        versions::leading_checksum(word) == versions::leading_checksum(word + seq![gap] + rest),
        versions::leading_checksum(word) == if encode_utf8(word).len() == 64 {
            Some(word)
        } else {
            None
        },
{
    text_laws::words_are_separated_by_white_space(word, gap, rest);
}

/// Where the checksums are published.
pub proof fn checksums_are_found_by_version(version: Seq<char>, filename: Seq<char>)
    ensures
        versions::manifest_address(version)
            == "https://download.nvidia.com/XFree86/Linux-x86_64/"@ + version + "/"@ + ".manifest"@,
        versions::sidecar_address(version, filename)
            == "https://download.nvidia.com/XFree86/Linux-x86_64/"@ + version + "/"@ + filename
            + ".sha256sum"@,
{
}

/// The search ends with the checksum of the manifest if it gives one, else with
/// that of the file beside the installer, else with none. It fails exactly if an
/// answer that was needed cannot be read, and an address that does not answer
/// counts as one that gives none.
pub proof fn search_takes_what_is_published(
    driver: DriverVersionView,
    manifest: ReplyView,
    sidecar: ReplyView,
)
    ensures
        ({
            let listed = match manifest {
                ReplyView::Body(body) => versions::listed_checksum(
                    text::lines(body),
                    driver.filename,
                ),
                _ => None,
            };
            let beside = match sidecar {
                ReplyView::Body(body) => versions::leading_checksum(body),
                _ => None,
            };
            let end = versions::search_outcome(driver, manifest, sidecar);
            &&& end is Failed <==> manifest is Unreadable || (listed is None && sidecar is Unreadable)
            &&& end matches ChecksumStepView::Done(found) ==> found == (if listed is Some {
                listed
            } else {
                beside
            })
            &&& !(end is Ask)
        }),
        versions::first_step(driver) == (ChecksumStepView::Ask {
            source: ChecksumSource::Manifest,
            url: versions::manifest_address(driver.version),
        }),
        versions::next_step(driver, ChecksumSource::Manifest, manifest) matches
            ChecksumStepView::Ask { source, url } ==> source == ChecksumSource::Sidecar && url
            == versions::sidecar_address(driver.version, driver.filename),
{
}

} // verus!
