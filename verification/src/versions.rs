//! Driver versions: how they are named, classified, ordered, listed on NVIDIA's
//! download server and accompanied by checksums.

use crate::number;
use crate::text;
use crate::text::Separator;
use vstd::prelude::*;
use vstd::utf8::*;

verus! {

/// A release branch of NVIDIA's Linux driver.
///
/// A branch is known by the major number of its versions. NVIDIA rolls the
/// branches forward every few months to a year, so the numbers below need
/// attention from time to time:
///   - New Feature Branch: R610, the early-adopter track.
///   - Production Branch: R595, the recommended stable track.
///   - Long Term Support Branch: R580, with three years of security support.
///   - Legacy: R470 and R390, the frozen lines that NVIDIA still updates for
///     GPUs which the current driver no longer supports.
/// Any other major number is left without a branch rather than guessed at.
#[derive(Debug, Clone, Copy, PartialEq, Eq, Structural)]
pub enum DriverBranch {
    NewFeature,
    Production,
    LongTermSupport,
    Legacy,
}

impl DriverBranch {
    /// The name shown for a branch.
    pub open spec fn label_text(self) -> Seq<char> {
        match self {
            DriverBranch::NewFeature => "New Feature"@,
            DriverBranch::Production => "Production"@,
            DriverBranch::LongTermSupport => "LTS"@,
            DriverBranch::Legacy => "Legacy"@,
        }
    }

    /// The name shown for this branch.
    pub fn label(&self) -> (r: &'static str)
        ensures
            r@ == self.label_text(),
    {
        match self {
            DriverBranch::NewFeature => "New Feature",
            DriverBranch::Production => "Production",
            DriverBranch::LongTermSupport => "LTS",
            DriverBranch::Legacy => "Legacy",
        }
    }

    /// The Adwaita style class that tints the badge of a branch.
    pub open spec fn css_text(self) -> Seq<char> {
        match self {
            DriverBranch::NewFeature => "accent"@,
            DriverBranch::Production => "success"@,
            DriverBranch::LongTermSupport => "warning"@,
            DriverBranch::Legacy => "dim-label"@,
        }
    }

    /// The Adwaita style class that tints the badge of this branch.
    pub fn css_class(&self) -> (r: &'static str)
        ensures
            r@ == self.css_text(),
    {
        match self {
            DriverBranch::NewFeature => "accent",
            DriverBranch::Production => "success",
            DriverBranch::LongTermSupport => "warning",
            DriverBranch::Legacy => "dim-label",
        }
    }
}

/// The branch with major number `major`, if it is a known one.
pub open spec fn branch_of_major(major: nat) -> Option<DriverBranch> {
    if major == 610 {
        Some(DriverBranch::NewFeature)
    } else if major == 595 {
        Some(DriverBranch::Production)
    } else if major == 580 {
        Some(DriverBranch::LongTermSupport)
    } else if major == 470 || major == 390 {
        Some(DriverBranch::Legacy)
    } else {
        None
    }
}

/// The branch of a version: that of the number before its first dot.
pub open spec fn branch_of(version: Seq<char>) -> Option<DriverBranch> {
    match number::parse(version.take(text::find(version, Separator::Dot) as int), u32::MAX as nat) {
        Some(major) => branch_of_major(major),
        None => None,
    }
}

/// The branch of `version`, if its major number is that of a known one.
pub fn classify_branch(version: &str) -> (r: Option<DriverBranch>)
    ensures
        r == branch_of(version@),
{
    let pieces = text::split_text(version, Separator::Dot);
    proof {
        text::lemma_split_first(version@, Separator::Dot);
        assert(pieces.deep_view()[0] == pieces@[0]@);
    }
    match number::parse_u32(pieces[0].as_str()) {
        Some(major) => match major {
            610 => Some(DriverBranch::NewFeature),
            595 => Some(DriverBranch::Production),
            580 => Some(DriverBranch::LongTermSupport),
            470 | 390 => Some(DriverBranch::Legacy),
            _ => None,
        },
        None => None,
    }
}

/// A driver that can be downloaded.
#[derive(Debug)]
pub struct DriverVersion {
    pub version: String,
    pub filename: String,
    pub url: String,
    pub branch: Option<DriverBranch>,
}

/// What a `DriverVersion` holds.
pub struct DriverVersionView {
    pub version: Seq<char>,
    pub filename: Seq<char>,
    pub url: Seq<char>,
    pub branch: Option<DriverBranch>,
}

impl View for DriverVersion {
    type V = DriverVersionView;

    open spec fn view(&self) -> DriverVersionView {
        DriverVersionView {
            version: self.version@,
            filename: self.filename@,
            url: self.url@,
            branch: self.branch,
        }
    }
}

impl DeepView for DriverVersion {
    type V = DriverVersionView;

    open spec fn deep_view(&self) -> DriverVersionView {
        self@
    }
}

impl Clone for DriverVersion {
    fn clone(&self) -> (r: DriverVersion)
        ensures
            r == *self,
    {
        DriverVersion {
            version: self.version.clone(),
            filename: self.filename.clone(),
            url: self.url.clone(),
            branch: self.branch,
        }
    }
}

/// The directory of the download server that lists the versions.
pub const NVIDIA_BASE: &'static str = "https://download.nvidia.com/XFree86/Linux-x86_64/";

/// The pattern of an official installer's file name, with the version as its
/// group.
pub const FILENAME_PATTERN: &'static str = r"^NVIDIA-Linux-x86_64-(\d+\.\d+(?:\.\d+)?)\.run$";

/// The pattern of a link to the directory of a version, with the version as its
/// group.
pub const LINK_PATTERN: &'static str = r"^(\d+\.\d+(?:\.\d+)?)/?$";

/// The selector of the links in a page.
pub const LINK_SELECTOR: &'static str = "a[href]";

/// The decimal digits beyond ASCII that the class `\d` of the `regex` crate
/// takes in: the characters of Unicode's general category `Nd`.
pub uninterp spec fn non_ascii_digit(c: char) -> bool;

/// Whether `c` belongs to the class `\d` of the `regex` crate.
pub open spec fn is_decimal_digit(c: char) -> bool {
    if c <= '\u{7f}' {
        number::is_digit(c)
    } else {
        non_ascii_digit(c)
    }
}

/// Whether `s` is made of one decimal digit or more.
pub open spec fn is_number(s: Seq<char>) -> bool {
    &&& s.len() > 0
    &&& forall|i: int| 0 <= i < s.len() ==> is_decimal_digit(#[trigger] s[i])
}

/// Whether `s` is a driver version: two or three numbers with dots between
/// them, such as `595.84` or `595.84.01`.
pub open spec fn is_version(s: Seq<char>) -> bool {
    let parts = text::split(s, Separator::Dot);
    &&& 2 <= parts.len() <= 3
    &&& forall|i: int| 0 <= i < parts.len() ==> is_number(#[trigger] parts[i])
}

/// The file name of the official installer of a version.
pub open spec fn installer_filename(version: Seq<char>) -> Seq<char> {
    "NVIDIA-Linux-x86_64-"@ + version + ".run"@
}

/// The version in the file name of an official installer; `None` for anything
/// that is not exactly such a name.
pub open spec fn version_of_filename(filename: Seq<char>) -> Option<Seq<char>> {
    let start = "NVIDIA-Linux-x86_64-"@.len();
    let end = filename.len() - ".run"@.len();
    let version = filename.subrange(start as int, end);
    if start <= end && filename == installer_filename(version) && is_version(version) {
        Some(version)
    } else {
        None
    }
}

/// The version that a link leads to, if its target is a version, with or
/// without a slash after it.
pub open spec fn version_of_link(target: Seq<char>) -> Option<Seq<char>> {
    if is_version(target) {
        Some(target)
    } else if target.len() > 0 && target.last() == '/' && is_version(target.drop_last()) {
        Some(target.drop_last())
    } else {
        None
    }
}

/// Calls `Regex::new` and `Regex::captures`, and takes the first group of the
/// match. Claims, for the two patterns above, what the syntax of the `regex`
/// crate makes of them: `^` and `$` stand for the two ends of the text, `\d+`
/// for one decimal digit of Unicode or more, `\.` for a dot, `?` for what may be
/// left out, and any other character for itself.
#[verifier::external_body]
fn regex_first_group(pattern: &str, text: &str) -> (r: Option<String>)
    requires
        pattern@ == FILENAME_PATTERN@ || pattern@ == LINK_PATTERN@,
    ensures
        pattern@ == FILENAME_PATTERN@ ==> r.deep_view() == version_of_filename(text@),
        pattern@ == LINK_PATTERN@ ==> r.deep_view() == version_of_link(text@),
        r matches Some(version) ==> forall|i: int|
            0 <= i < version@.len() && #[trigger] version@[i] > '\u{7f}' ==> non_ascii_digit(
                version@[i],
            ),
{
    match regex::Regex::new(pattern) {
        Ok(re) => re.captures(text).map(|groups| groups[1].to_string()),
        Err(_) => None,
    }
}

/// The version in an official installer's file name such as
/// `NVIDIA-Linux-x86_64-595.84.run`. `None` for anything that does not match
/// exactly, such as `NVIDIA-Linux-x86_64-595.84-vulkan.run`, so that callers can
/// show that it is unknown rather than guess.
pub fn version_from_filename(filename: &str) -> (r: Option<String>)
    ensures
        r.deep_view() == version_of_filename(filename@),
{
    regex_first_group(FILENAME_PATTERN, filename)
}

/// The numbers among `pieces`, in order; a piece that is no 32-bit number is
/// left out.
pub open spec fn numbers(pieces: Seq<Seq<char>>) -> Seq<u32>
    decreases pieces.len(),
{
    if pieces.len() == 0 {
        seq![]
    } else {
        let rest = numbers(pieces.drop_last());
        match number::parse(pieces.last(), u32::MAX as nat) {
            Some(n) => rest.push(n as u32),
            None => rest,
        }
    }
}

/// The numbers between the dots of a version, by which versions are ordered.
pub open spec fn version_key(version: Seq<char>) -> Seq<u32> {
    numbers(text::split(version, Separator::Dot))
}

/// The numbers between the dots of `version`.
pub fn version_numbers(version: &str) -> (r: Vec<u32>)
    ensures
        r@ == version_key(version@),
{
    let pieces = text::split_text(version, Separator::Dot);
    let ghost all = pieces.deep_view();
    let mut r: Vec<u32> = Vec::new();
    let mut i: usize = 0;
    while i < pieces.len()
        invariant
            i <= pieces@.len(),
            all == pieces.deep_view(),
            r@ == numbers(all.take(i as int)),
        decreases pieces@.len() - i,
    {
        proof {
            assert(all.take(i + 1).drop_last() == all.take(i as int));
            assert(all.take(i + 1).last() == pieces@[i as int]@);
        }
        match number::parse_u32(pieces[i].as_str()) {
            Some(n) => {
                r.push(n);
            },
            None => {},
        }
        i = i + 1;
    }
    assert(all.take(i as int) == all);
    r
}

/// The lexicographic order: the first numbers that differ decide, and a proper
/// prefix comes first.
pub open spec fn precedes(a: Seq<u32>, b: Seq<u32>) -> bool
    decreases a.len(),
{
    if b.len() == 0 {
        false
    } else if a.len() == 0 {
        true
    } else if a[0] != b[0] {
        a[0] < b[0]
    } else {
        precedes(a.drop_first(), b.drop_first())
    }
}

/// Of two different keys exactly one precedes the other, and no key precedes
/// itself.
pub proof fn order_is_total(a: Seq<u32>, b: Seq<u32>)
    ensures
        a == b ==> !precedes(a, b) && !precedes(b, a),
        a != b ==> precedes(a, b) != precedes(b, a),
    decreases a.len(),
{
    if a.len() > 0 && b.len() > 0 && a[0] == b[0] {
        order_is_total(a.drop_first(), b.drop_first());
        assert(a == seq![a[0]] + a.drop_first());
        assert(b == seq![b[0]] + b.drop_first());
    } else if a.len() == 0 && b.len() == 0 {
        assert(a == b);
    }
}

/// The order is transitive.
pub proof fn order_is_transitive(a: Seq<u32>, b: Seq<u32>, c: Seq<u32>)
    requires
        precedes(a, b),
        precedes(b, c),
    ensures
        precedes(a, c),
    decreases a.len(),
{
    if a.len() > 0 && b.len() > 0 && c.len() > 0 && a[0] == b[0] && b[0] == c[0] {
        order_is_transitive(a.drop_first(), b.drop_first(), c.drop_first());
    }
}

/// What two keys have in common at their beginning does not matter.
pub proof fn lemma_precedes_after_common(a: Seq<u32>, b: Seq<u32>, n: int)
    requires
        0 <= n <= a.len(),
        n <= b.len(),
        forall|j: int| 0 <= j < n ==> #[trigger] a[j] == b[j],
    ensures
        precedes(a, b) == precedes(a.skip(n), b.skip(n)),
    decreases n,
{
    if n > 0 {
        let x = a.drop_first();
        let y = b.drop_first();
        assert forall|j: int| 0 <= j < n - 1 implies #[trigger] x[j] == y[j] by {
            assert(x[j] == a[j + 1]);
            assert(y[j] == b[j + 1]);
        }
        assert(a[0] == b[0]);
        lemma_precedes_after_common(x, y, n - 1);
        assert(x.skip(n - 1) == a.skip(n));
        assert(y.skip(n - 1) == b.skip(n));
    } else {
        assert(a.skip(0) == a);
        assert(b.skip(0) == b);
    }
}

/// Whether `a` precedes `b` in the lexicographic order.
fn key_precedes(a: &Vec<u32>, b: &Vec<u32>) -> (r: bool)
    ensures
        r == precedes(a@, b@),
{
    let mut i: usize = 0;
    while i < a.len() && i < b.len() && a[i] == b[i]
        invariant
            i <= a@.len(),
            i <= b@.len(),
            forall|j: int| 0 <= j < i ==> #[trigger] a@[j] == b@[j],
        decreases a@.len() - i,
    {
        i = i + 1;
    }
    proof {
        lemma_precedes_after_common(a@, b@, i as int);
    }
    if i == b.len() {
        false
    } else if i == a.len() {
        true
    } else {
        a[i] < b[i]
    }
}

/// How a version stands to the installed one.
#[derive(Debug, Clone, Copy, PartialEq, Eq, Structural)]
pub enum VersionRelation {
    Newer,
    Same,
    Older,
    Unknown,
}

/// How `candidate` stands to `installed`, by their numbers. Unknown if either
/// has none.
pub open spec fn relation(installed: Seq<char>, candidate: Seq<char>) -> VersionRelation {
    let i = version_key(installed);
    let c = version_key(candidate);
    if i.len() == 0 || c.len() == 0 {
        VersionRelation::Unknown
    } else if precedes(i, c) {
        VersionRelation::Newer
    } else if precedes(c, i) {
        VersionRelation::Older
    } else {
        VersionRelation::Same
    }
}

/// How `candidate` stands to `installed`.
pub fn compare_versions(installed: &str, candidate: &str) -> (r: VersionRelation)
    ensures
        r == relation(installed@, candidate@),
{
    let i = version_numbers(installed);
    let c = version_numbers(candidate);
    if i.len() == 0 || c.len() == 0 {
        VersionRelation::Unknown
    } else if key_precedes(&i, &c) {
        VersionRelation::Newer
    } else if key_precedes(&c, &i) {
        VersionRelation::Older
    } else {
        VersionRelation::Same
    }
}

/// Comparing the other way round gives the opposite answer.
pub proof fn relation_is_antisymmetric(a: Seq<char>, b: Seq<char>)
    ensures
        relation(a, b) == VersionRelation::Newer <==> relation(b, a) == VersionRelation::Older,
        relation(a, b) == VersionRelation::Same <==> relation(b, a) == VersionRelation::Same,
        relation(a, b) == VersionRelation::Unknown <==> relation(b, a) == VersionRelation::Unknown,
{
    order_is_total(version_key(a), version_key(b));
}

/// Two versions are the same exactly if they have numbers and the numbers are
/// equal, so a version with a number is the same as itself.
pub proof fn same_means_equal_numbers(a: Seq<char>, b: Seq<char>)
    ensures
        relation(a, b) == VersionRelation::Same <==> version_key(a) == version_key(b)
            && version_key(a).len() > 0,
{
    order_is_total(version_key(a), version_key(b));
}

/// What is newer than a newer version is newer.
pub proof fn newer_is_transitive(a: Seq<char>, b: Seq<char>, c: Seq<char>)
    requires
        relation(a, b) == VersionRelation::Newer,
        relation(b, c) == VersionRelation::Newer,
    ensures
        relation(a, c) == VersionRelation::Newer,
{
    order_is_transitive(version_key(a), version_key(b), version_key(c));
}

/// Whether no version of `list` is newer than one before it.
pub open spec fn newest_first(list: Seq<DriverVersionView>) -> bool {
    forall|i: int, j: int|
        0 <= i < j < list.len() ==> !precedes(
            version_key(#[trigger] list[i].version),
            version_key(#[trigger] list[j].version),
        )
}

/// The versions of `list` whose numbers are `key`, in order.
pub open spec fn with_key(list: Seq<DriverVersionView>, key: Seq<u32>) -> Seq<DriverVersionView>
    decreases list.len(),
{
    if list.len() == 0 {
        seq![]
    } else if version_key(list.last().version) == key {
        with_key(list.drop_last(), key).push(list.last())
    } else {
        with_key(list.drop_last(), key)
    }
}

/// Whether `sorted` is `list` put in order, newest first: it holds the same
/// versions, and those with equal numbers keep the order that they had.
pub open spec fn is_sorted_from(
    sorted: Seq<DriverVersionView>,
    list: Seq<DriverVersionView>,
) -> bool {
    &&& newest_first(sorted)
    &&& forall|key: Seq<u32>| #[trigger] with_key(sorted, key) == with_key(list, key)
}

proof fn lemma_with_key_concat(
    a: Seq<DriverVersionView>,
    b: Seq<DriverVersionView>,
    key: Seq<u32>,
)
    ensures
        with_key(a + b, key) == with_key(a, key) + with_key(b, key),
    decreases b.len(),
{
    if b.len() == 0 {
        assert(a + b == a);
    } else {
        assert((a + b).drop_last() == a + b.drop_last());
        lemma_with_key_concat(a, b.drop_last(), key);
    }
}

proof fn lemma_with_key_none(list: Seq<DriverVersionView>, key: Seq<u32>)
    requires
        forall|i: int| 0 <= i < list.len() ==> version_key(#[trigger] list[i].version) != key,
    ensures
        with_key(list, key) == Seq::<DriverVersionView>::empty(),
    decreases list.len(),
{
    if list.len() > 0 {
        let n = list.len() - 1;
        assert(version_key(list[n].version) != key);
        let rest = list.drop_last();
        assert forall|i: int| 0 <= i < rest.len() implies version_key(
            #[trigger] rest[i].version,
        ) != key by {
            assert(rest[i] == list[i]);
        }
        lemma_with_key_none(rest, key);
    }
}

proof fn lemma_with_key_some(list: Seq<DriverVersionView>, key: Seq<u32>) -> (i: int)
    requires
        with_key(list, key).len() > 0,
    ensures
        0 <= i < list.len(),
        version_key(list[i].version) == key,
    decreases list.len(),
{
    if version_key(list.last().version) == key {
        list.len() - 1
    } else {
        lemma_with_key_some(list.drop_last(), key)
    }
}

/// There is only one way to put a list in order: two results of sorting the
/// same list are equal.
pub proof fn sorting_is_determined(
    a: Seq<DriverVersionView>,
    b: Seq<DriverVersionView>,
    list: Seq<DriverVersionView>,
)
    requires
        is_sorted_from(a, list),
        is_sorted_from(b, list),
    ensures
        a == b,
{
    assert forall|key: Seq<u32>| #[trigger] with_key(a, key) == with_key(b, key) by {
        assert(with_key(a, key) == with_key(list, key));
    }
    lemma_sorted_equal(a, b);
}

proof fn lemma_count_with_key(list: Seq<DriverVersionView>, x: DriverVersionView)
    ensures
        list.to_multiset().count(x) == with_key(
            list,
            version_key(x.version),
        ).to_multiset().count(x),
    decreases list.len(),
{
    broadcast use vstd::seq_lib::group_to_multiset_ensures;
    broadcast use vstd::multiset::group_multiset_axioms;

    if list.len() > 0 {
        let rest = list.drop_last();
        lemma_count_with_key(rest, x);
        assert(list == rest.push(list.last()));
    }
}

/// Sorting keeps every version as often as it was there.
pub proof fn sorting_keeps_versions(
    sorted: Seq<DriverVersionView>,
    list: Seq<DriverVersionView>,
)
    requires
        is_sorted_from(sorted, list),
    ensures
        sorted.to_multiset() == list.to_multiset(),
        sorted.len() == list.len(),
{
    assert forall|x: DriverVersionView| #[trigger]
        sorted.to_multiset().count(x) == list.to_multiset().count(x) by {
        lemma_count_with_key(sorted, x);
        lemma_count_with_key(list, x);
        let key = version_key(x.version);
        assert(with_key(sorted, key) == with_key(list, key));
    }
    assert(sorted.to_multiset() =~= list.to_multiset());
    broadcast use vstd::seq_lib::group_to_multiset_ensures;

    assert(sorted.len() == sorted.to_multiset().len());
    assert(list.len() == list.to_multiset().len());
}

/// The list and the comparison agree: nothing in a sorted list is newer than
/// what stands before it.
pub proof fn list_agrees_with_comparison(
    sorted: Seq<DriverVersionView>,
    list: Seq<DriverVersionView>,
    i: int,
    j: int,
)
    requires
        is_sorted_from(sorted, list),
        0 <= i < j < sorted.len(),
    ensures
        relation(sorted[i].version, sorted[j].version) != VersionRelation::Newer,
{
}

proof fn lemma_sorted_equal(a: Seq<DriverVersionView>, b: Seq<DriverVersionView>)
    requires
        newest_first(a),
        newest_first(b),
        forall|key: Seq<u32>| #[trigger] with_key(a, key) == with_key(b, key),
    ensures
        a == b,
    decreases a.len(),
{
    if a.len() == 0 {
        if b.len() > 0 {
            let k = version_key(b.last().version);
            assert(with_key(a, k).len() == 0);
            assert(with_key(b, k).len() > 0);
        }
        assert(a == b);
    } else {
        let ka = version_key(a.last().version);
        assert(with_key(a, ka).len() > 0);
        let j = lemma_with_key_some(b, ka);
        let kb = version_key(b.last().version);
        assert(with_key(b, kb).len() > 0);
        assert(with_key(a, kb) == with_key(b, kb));
        let i = lemma_with_key_some(a, kb);
        assert(!precedes(kb, ka)) by {
            order_is_total(kb, ka);
            if i < a.len() - 1 {
                assert(!precedes(version_key(a[i].version), version_key(a[a.len() - 1].version)));
            }
        }
        assert(!precedes(ka, kb)) by {
            order_is_total(kb, ka);
            if j < b.len() - 1 {
                assert(!precedes(version_key(b[j].version), version_key(b[b.len() - 1].version)));
            }
        }
        order_is_total(ka, kb);
        assert(ka == kb);
        assert(with_key(a, ka).last() == a.last());
        assert(with_key(b, ka).last() == b.last());
        let x = a.drop_last();
        let y = b.drop_last();
        assert forall|key: Seq<u32>| #[trigger] with_key(x, key) == with_key(y, key) by {
            assert(with_key(a, key) == with_key(b, key));
            if key == ka {
                assert(with_key(x, key) == with_key(a, key).drop_last());
                assert(with_key(y, key) == with_key(b, key).drop_last());
            }
        }
        assert forall|i: int, j: int| 0 <= i < j < x.len() implies !precedes(
            version_key(#[trigger] x[i].version),
            version_key(#[trigger] x[j].version),
        ) by {
            assert(x[i] == a[i] && x[j] == a[j]);
        }
        assert forall|i: int, j: int| 0 <= i < j < y.len() implies !precedes(
            version_key(#[trigger] y[i].version),
            version_key(#[trigger] y[j].version),
        ) by {
            assert(y[i] == b[i] && y[j] == b[j]);
        }
        lemma_sorted_equal(x, y);
        assert(a == x.push(a.last()));
        assert(b == y.push(b.last()));
    }
}

/// What inserting `x` at `p` does to a sorted list: it stays sorted, and `x`
/// comes last among the versions with its numbers.
proof fn lemma_insert(list: Seq<DriverVersionView>, p: int, x: DriverVersionView)
    requires
        0 <= p <= list.len(),
        newest_first(list),
        forall|j: int|
            0 <= j < p ==> !precedes(
                version_key(#[trigger] list[j].version),
                version_key(x.version),
            ),
        forall|j: int|
            p <= j < list.len() ==> precedes(
                version_key(#[trigger] list[j].version),
                version_key(x.version),
            ),
    ensures
        newest_first(list.insert(p, x)),
        forall|key: Seq<u32>| #[trigger]
            with_key(list.insert(p, x), key) == with_key(list.push(x), key),
{
    let out = list.insert(p, x);
    assert forall|i: int, j: int| 0 <= i < j < out.len() implies !precedes(
        version_key(#[trigger] out[i].version),
        version_key(#[trigger] out[j].version),
    ) by {
        let ki = version_key(out[i].version);
        let kj = version_key(out[j].version);
        if i < p && j == p {
            assert(out[i] == list[i]);
        } else if i < p && j < p {
            assert(out[i] == list[i] && out[j] == list[j]);
        } else if i < p {
            assert(out[i] == list[i] && out[j] == list[j - 1]);
        } else if i == p {
            assert(out[j] == list[j - 1]);
            order_is_total(kj, ki);
        } else {
            assert(out[i] == list[i - 1] && out[j] == list[j - 1]);
        }
    }
    assert forall|key: Seq<u32>| #[trigger] with_key(out, key) == with_key(list.push(x), key) by {
        let left = list.take(p);
        let right = list.skip(p);
        let one = seq![x];
        assert(out == left + one + right);
        assert(list.push(x) == left + right + one);
        lemma_with_key_concat(left + one, right, key);
        lemma_with_key_concat(left, one, key);
        lemma_with_key_concat(left + right, one, key);
        lemma_with_key_concat(left, right, key);
        assert(one.drop_last() == Seq::<DriverVersionView>::empty());
        if key == version_key(x.version) {
            assert forall|i: int| 0 <= i < right.len() implies version_key(
                #[trigger] right[i].version,
            ) != key by {
                assert(right[i] == list[p + i]);
                order_is_total(version_key(right[i].version), key);
            }
            lemma_with_key_none(right, key);
            assert(with_key(left, key) + with_key(one, key) + with_key(right, key) == with_key(
                left,
                key,
            ) + with_key(right, key) + with_key(one, key));
        } else {
            lemma_with_key_none(one, key);
            assert(with_key(left, key) + with_key(one, key) + with_key(right, key) == with_key(
                left,
                key,
            ) + with_key(right, key) + with_key(one, key));
        }
    }
}

/// Puts the versions in order, newest first. The order goes by the numbers
/// between the dots, and versions with equal numbers keep the order they had.
pub fn sort_newest_first(list: Vec<DriverVersion>) -> (r: Vec<DriverVersion>)
    ensures
        is_sorted_from(r.deep_view(), list.deep_view()),
{
    let ghost all = list.deep_view();
    let mut r: Vec<DriverVersion> = Vec::new();
    let mut keys: Vec<Vec<u32>> = Vec::new();
    let mut i: usize = 0;
    assert(all.take(0) == r.deep_view());
    while i < list.len()
        invariant
            i <= list@.len(),
            all == list.deep_view(),
            keys@.len() == r@.len(),
            forall|j: int|
                0 <= j < r@.len() ==> (#[trigger] keys@[j])@ == version_key(r@[j].version@),
            is_sorted_from(r.deep_view(), all.take(i as int)),
        decreases list@.len() - i,
    {
        let ghost sorted = r.deep_view();
        let key = version_numbers(list[i].version.as_str());
        let mut p: usize = r.len();
        while p > 0 && key_precedes(&keys[p - 1], &key)
            invariant
                p <= r@.len(),
                keys@.len() == r@.len(),
                sorted == r.deep_view(),
                forall|j: int|
                    0 <= j < r@.len() ==> (#[trigger] keys@[j])@ == version_key(r@[j].version@),
                forall|j: int|
                    p <= j < sorted.len() ==> precedes(
                        version_key(#[trigger] sorted[j].version),
                        key@,
                    ),
            decreases p,
        {
            p = p - 1;
            assert(sorted[p as int].version == r@[p as int].version@);
        }
        proof {
            let x = all[i as int];
            assert(x == list@[i as int]@);
            assert forall|j: int| 0 <= j < p implies !precedes(
                version_key(#[trigger] sorted[j].version),
                key@,
            ) by {
                let kj = version_key(sorted[j].version);
                let kp = version_key(sorted[p - 1].version);
                assert(keys@[p - 1]@ == version_key(r@[p - 1].version@));
                assert(!precedes(kp, key@));
                if j < p - 1 && precedes(kj, key@) {
                    order_is_total(kp, key@);
                    if kp != key@ {
                        order_is_transitive(kj, key@, kp);
                    }
                    assert(precedes(kj, kp));
                }
            }
            lemma_insert(sorted, p as int, x);
            assert(all.take(i + 1).drop_last() == all.take(i as int));
            assert forall|k: Seq<u32>| #[trigger] with_key(sorted.insert(p as int, x), k)
                == with_key(all.take(i + 1), k) by {
                assert(sorted.push(x).drop_last() == sorted);
                assert(with_key(sorted, k) == with_key(all.take(i as int), k));
            }
        }
        r.insert(p, list[i].clone());
        keys.insert(p, key);
        assert(r.deep_view() == sorted.insert(p as int, all[i as int]));
        i = i + 1;
    }
    assert(all.take(i as int) == all);
    r
}

/// The version that a link of the listing leads to, if it leads to one.
pub fn version_from_link(target: &str) -> (r: Option<String>)
    ensures
        r.deep_view() == version_of_link(target@),
{
    regex_first_group(LINK_PATTERN, target)
}

/// Everything about a version that follows from its name.
pub open spec fn driver_of(version: Seq<char>) -> DriverVersionView {
    DriverVersionView {
        version: version,
        filename: installer_filename(version),
        url: NVIDIA_BASE@ + version + "/"@ + installer_filename(version),
        branch: branch_of(version),
    }
}

/// The driver with version `version`.
pub fn driver(version: &str) -> (r: DriverVersion)
    ensures
        r@ == driver_of(version@),
{
    let mut filename = "NVIDIA-Linux-x86_64-".to_string();
    filename.append(version);
    filename.append(".run");
    let mut url = NVIDIA_BASE.to_string();
    url.append(version);
    url.append("/");
    url.append(filename.as_str());
    let branch = classify_branch(version);
    DriverVersion { version: version.to_string(), filename, url, branch }
}

/// The drivers that `links` lead to, in order. A link without a target, or with
/// a target that is not a version, leads to none.
pub open spec fn linked_drivers(links: Seq<Option<Seq<char>>>) -> Seq<DriverVersionView>
    decreases links.len(),
{
    if links.len() == 0 {
        seq![]
    } else {
        let rest = linked_drivers(links.drop_last());
        match links.last() {
            Some(target) => match version_of_link(target) {
                Some(version) => rest.push(driver_of(version)),
                None => rest,
            },
            None => rest,
        }
    }
}

/// The drivers that the links of the listing lead to, newest first.
pub fn versions_from_links(links: &Vec<Option<String>>) -> (r: Vec<DriverVersion>)
    ensures
        is_sorted_from(r.deep_view(), linked_drivers(links.deep_view())),
{
    let ghost all = links.deep_view();
    let mut found: Vec<DriverVersion> = Vec::new();
    let mut i: usize = 0;
    while i < links.len()
        invariant
            i <= links@.len(),
            all == links.deep_view(),
            found.deep_view() == linked_drivers(all.take(i as int)),
        decreases links@.len() - i,
    {
        proof {
            assert(all.take(i + 1).drop_last() == all.take(i as int));
            assert(all.take(i + 1).last() == links@[i as int].deep_view());
        }
        if let Some(target) = &links[i] {
            if let Some(version) = version_from_link(target.as_str()) {
                let ghost before = found.deep_view();
                found.push(driver(version.as_str()));
                assert(found.deep_view() == before.push(driver_of(version@)));
            }
        }
        i = i + 1;
    }
    assert(all.take(i as int) == all);
    sort_newest_first(found)
}

/// The value that attribute `attribute` has in each element of the page `html`
/// that `selector` selects, in the order in which the parser made the elements;
/// `None` for an element without that attribute.
pub uninterp spec fn selected_attributes(
    html: Seq<char>,
    selector: Seq<char>,
    attribute: Seq<char>,
) -> Seq<Option<Seq<char>>>;

/// The size in bytes up to which a page is parsed. The parser keeps text in
/// buffers of at most 2^31 bytes, and may write one byte of the page as three.
pub const PAGE_LIMIT: usize = 0x2000_0000;

/// Calls `Html::parse_document`, `Selector::parse`, `Html::select` and
/// `Element::attr` of the `scraper` crate. Claims that the result is a function
/// of the page, the selector and the attribute.
#[verifier::external_body]
fn scraper_attributes(html: &str, selector: &str, attribute: &str) -> (r: Vec<Option<String>>)
    requires
        encode_utf8(html@).len() <= PAGE_LIMIT,
        selector@ == LINK_SELECTOR@,
    ensures
        r.deep_view() == selected_attributes(html@, selector@, attribute@),
{
    let page = scraper::Html::parse_document(html);
    match scraper::Selector::parse(selector) {
        Ok(s) => page.select(&s).map(|e| e.value().attr(attribute).map(str::to_string)).collect(),
        Err(_) => Vec::new(),
    }
}

/// The drivers that NVIDIA's listing, the page `html`, has links to, newest
/// first.
pub fn versions_from_listing(html: &str) -> (r: Vec<DriverVersion>)
    requires
        encode_utf8(html@).len() <= PAGE_LIMIT,
    ensures
        is_sorted_from(
            r.deep_view(),
            linked_drivers(selected_attributes(html@, LINK_SELECTOR@, "href"@)),
        ),
{
    let links = scraper_attributes(html, LINK_SELECTOR, "href");
    versions_from_links(&links)
}

/// The number of characters of a SHA-256 digest in hexadecimal.
pub const CHECKSUM_LENGTH: usize = 64;

/// Whether a text has the length of a checksum. The length is that of its
/// UTF-8 form.
pub open spec fn has_checksum_length(s: Seq<char>) -> bool {
    encode_utf8(s).len() == CHECKSUM_LENGTH
}

fn is_checksum_long(s: &str) -> (r: bool)
    ensures
        r == has_checksum_length(s@),
{
    s.as_bytes().len() == CHECKSUM_LENGTH
}

/// The first word of `s`, if it has the length of a checksum.
pub open spec fn leading_checksum(s: Seq<char>) -> Option<Seq<char>> {
    let words = text::words(s);
    if words.len() > 0 && has_checksum_length(words[0]) {
        Some(words[0])
    } else {
        None
    }
}

/// The first word of `s`, if it has the length of a checksum.
fn first_checksum(s: &str) -> (r: Option<String>)
    ensures
        r.deep_view() == leading_checksum(s@),
{
    let words = text::split_words(s);
    if words.len() > 0 {
        assert(words.deep_view()[0] == words@[0]@);
        if is_checksum_long(words[0].as_str()) {
            return Some(words[0].clone());
        }
    }
    None
}

/// The checksum that the first of `lines` gives which names `filename` and
/// begins with a checksum.
pub open spec fn listed_checksum(lines: Seq<Seq<char>>, filename: Seq<char>) -> Option<Seq<char>>
    decreases lines.len(),
{
    if lines.len() == 0 {
        None
    } else if text::contains(lines[0], filename) && leading_checksum(lines[0]) is Some {
        leading_checksum(lines[0])
    } else {
        listed_checksum(lines.drop_first(), filename)
    }
}

/// The checksum of the file `filename` according to the manifest `manifest`.
pub fn checksum_from_manifest(manifest: &str, filename: &str) -> (r: Option<String>)
    ensures
        r.deep_view() == listed_checksum(text::lines(manifest@), filename@),
{
    let lines = text::split_lines(manifest);
    let ghost all = lines.deep_view();
    let mut i: usize = 0;
    assert(all.skip(0) == all);
    while i < lines.len()
        invariant
            i <= lines@.len(),
            all == lines.deep_view(),
            all == text::lines(manifest@),
            listed_checksum(all, filename@) == listed_checksum(all.skip(i as int), filename@),
        decreases lines@.len() - i,
    {
        proof {
            assert(all.skip(i as int)[0] == lines@[i as int]@);
            assert(all.skip(i as int).drop_first() == all.skip(i + 1));
        }
        if text::has(lines[i].as_str(), filename) {
            let found = first_checksum(lines[i].as_str());
            if found.is_some() {
                return found;
            }
        }
        i = i + 1;
    }
    None
}

/// The checksum that a `.sha256sum` file gives.
pub fn checksum_from_sidecar(sidecar: &str) -> (r: Option<String>)
    ensures
        r.deep_view() == leading_checksum(sidecar@),
{
    first_checksum(sidecar)
}

/// The address of the manifest of a version.
pub open spec fn manifest_address(version: Seq<char>) -> Seq<char> {
    NVIDIA_BASE@ + version + "/"@ + ".manifest"@
}

/// The address of the checksum file beside an installer.
pub open spec fn sidecar_address(version: Seq<char>, filename: Seq<char>) -> Seq<char> {
    NVIDIA_BASE@ + version + "/"@ + filename + ".sha256sum"@
}

/// The address of the manifest of `driver`.
pub fn manifest_url(driver: &DriverVersion) -> (r: String)
    ensures
        r@ == manifest_address(driver@.version),
{
    let mut r = NVIDIA_BASE.to_string();
    r.append(driver.version.as_str());
    r.append("/");
    r.append(".manifest");
    r
}

/// The address of the checksum file beside the installer of `driver`.
pub fn sidecar_url(driver: &DriverVersion) -> (r: String)
    ensures
        r@ == sidecar_address(driver@.version, driver@.filename),
{
    let mut r = NVIDIA_BASE.to_string();
    r.append(driver.version.as_str());
    r.append("/");
    r.append(driver.filename.as_str());
    r.append(".sha256sum");
    r
}

/// Where a checksum is looked for. The manifest comes first, the file beside
/// the installer is the fallback.
#[derive(Debug, Clone, Copy, PartialEq, Eq, Structural)]
pub enum ChecksumSource {
    Manifest,
    Sidecar,
}

/// What came of a request.
#[derive(Debug)]
pub enum Reply {
    /// The request could not be sent or was not answered.
    Unreachable,
    /// The answer does not report success.
    Refused,
    /// The answer reports success, but its body could not be read.
    Unreadable,
    /// The body of an answer that reports success.
    Body(String),
}

/// What a `Reply` holds.
pub enum ReplyView {
    Unreachable,
    Refused,
    Unreadable,
    Body(Seq<char>),
}

impl View for Reply {
    type V = ReplyView;

    open spec fn view(&self) -> ReplyView {
        match self {
            Reply::Unreachable => ReplyView::Unreachable,
            Reply::Refused => ReplyView::Refused,
            Reply::Unreadable => ReplyView::Unreadable,
            Reply::Body(body) => ReplyView::Body(body@),
        }
    }
}

/// The next step of the search for a checksum.
#[derive(Debug)]
pub enum ChecksumStep {
    /// Request the address `url`, which is that of `source`.
    Ask { source: ChecksumSource, url: String },
    /// The search is over, with the checksum if one is published.
    Done(Option<String>),
    /// The search has failed: the body of an answer could not be read.
    Failed,
}

/// What a `ChecksumStep` holds.
pub enum ChecksumStepView {
    Ask { source: ChecksumSource, url: Seq<char> },
    Done(Option<Seq<char>>),
    Failed,
}

impl View for ChecksumStep {
    type V = ChecksumStepView;

    open spec fn view(&self) -> ChecksumStepView {
        match self {
            ChecksumStep::Ask { source, url } => ChecksumStepView::Ask {
                source: *source,
                url: url@,
            },
            ChecksumStep::Done(checksum) => ChecksumStepView::Done(checksum.deep_view()),
            ChecksumStep::Failed => ChecksumStepView::Failed,
        }
    }
}

/// The first step of the search: to ask for the manifest.
pub open spec fn first_step(driver: DriverVersionView) -> ChecksumStepView {
    ChecksumStepView::Ask {
        source: ChecksumSource::Manifest,
        url: manifest_address(driver.version),
    }
}

/// The fallback: to ask for the checksum file beside the installer.
pub open spec fn fallback_step(driver: DriverVersionView) -> ChecksumStepView {
    ChecksumStepView::Ask {
        source: ChecksumSource::Sidecar,
        url: sidecar_address(driver.version, driver.filename),
    }
}

/// The step that follows the reply `reply` from `source`.
pub open spec fn next_step(
    driver: DriverVersionView,
    source: ChecksumSource,
    reply: ReplyView,
) -> ChecksumStepView {
    match (source, reply) {
        (_, ReplyView::Unreadable) => ChecksumStepView::Failed,
        (ChecksumSource::Manifest, ReplyView::Body(body)) => match listed_checksum(
            text::lines(body),
            driver.filename,
        ) {
            Some(checksum) => ChecksumStepView::Done(Some(checksum)),
            None => fallback_step(driver),
        },
        (ChecksumSource::Manifest, _) => fallback_step(driver),
        (ChecksumSource::Sidecar, ReplyView::Body(body)) => ChecksumStepView::Done(
            leading_checksum(body),
        ),
        (ChecksumSource::Sidecar, _) => ChecksumStepView::Done(None),
    }
}

/// Begins the search for the checksum of `driver`.
pub fn begin_checksum_search(driver: &DriverVersion) -> (r: ChecksumStep)
    ensures
        r@ == first_step(driver@),
{
    ChecksumStep::Ask { source: ChecksumSource::Manifest, url: manifest_url(driver) }
}

/// Goes on with the search for the checksum of `driver` after the reply `reply`
/// from `source`.
pub fn continue_checksum_search(
    driver: &DriverVersion,
    source: ChecksumSource,
    reply: Reply,
) -> (r: ChecksumStep)
    ensures
        r@ == next_step(driver@, source, reply@),
{
    match source {
        ChecksumSource::Manifest => {
            match reply {
                Reply::Unreadable => {
                    return ChecksumStep::Failed;
                },
                Reply::Body(body) => {
                    let found = checksum_from_manifest(body.as_str(), driver.filename.as_str());
                    if found.is_some() {
                        return ChecksumStep::Done(found);
                    }
                },
                _ => {},
            }
            ChecksumStep::Ask { source: ChecksumSource::Sidecar, url: sidecar_url(driver) }
        },
        ChecksumSource::Sidecar => match reply {
            Reply::Unreadable => ChecksumStep::Failed,
            Reply::Body(body) => ChecksumStep::Done(checksum_from_sidecar(body.as_str())),
            _ => ChecksumStep::Done(None),
        },
    }
}

/// How the search for a checksum ends when the two addresses give these
/// replies.
pub open spec fn search_outcome(
    driver: DriverVersionView,
    manifest: ReplyView,
    sidecar: ReplyView,
) -> ChecksumStepView {
    match next_step(driver, ChecksumSource::Manifest, manifest) {
        ChecksumStepView::Ask { source, .. } => next_step(driver, source, sidecar),
        end => end,
    }
}

proof fn lemma_listed_checksum_length(lines: Seq<Seq<char>>, filename: Seq<char>)
    ensures
        listed_checksum(lines, filename) matches Some(c) ==> has_checksum_length(c),
    decreases lines.len(),
{
    if lines.len() > 0 {
        lemma_listed_checksum_length(lines.drop_first(), filename);
    }
}

/// The search makes at most two requests, and it ends without a checksum and
/// without an error only if neither address gives one: an unreadable answer
/// never passes for a checksum that is not published. A checksum that is found
/// has the length of one.
pub proof fn search_ends_soundly(
    driver: DriverVersionView,
    manifest: ReplyView,
    sidecar: ReplyView,
)
    ensures
        !(search_outcome(driver, manifest, sidecar) is Ask),
        search_outcome(driver, manifest, sidecar) == ChecksumStepView::Done(None) ==> {
            &&& !(manifest is Unreadable)
            &&& !(sidecar is Unreadable)
            &&& manifest matches ReplyView::Body(body) ==> listed_checksum(
                text::lines(body),
                driver.filename,
            ) is None
            &&& sidecar matches ReplyView::Body(body) ==> leading_checksum(body) is None
        },
        search_outcome(driver, manifest, sidecar) matches ChecksumStepView::Done(Some(c))
            ==> has_checksum_length(c),
        search_outcome(driver, manifest, sidecar) is Failed ==> manifest is Unreadable
            || sidecar is Unreadable,
{
    if let ReplyView::Body(body) = manifest {
        lemma_listed_checksum_length(text::lines(body), driver.filename);
    }
}

/// A checksum in the manifest is taken whatever the other address would have
/// given.
pub proof fn manifest_comes_first(
    driver: DriverVersionView,
    manifest: Seq<char>,
    sidecar: ReplyView,
)
    ensures
        listed_checksum(text::lines(manifest), driver.filename) matches Some(c) ==> search_outcome(
            driver,
            ReplyView::Body(manifest),
            sidecar,
        ) == ChecksumStepView::Done(Some(c)),
{
}

proof fn lemma_filename_parts(version: Seq<char>)
    ensures
        installer_filename(version).subrange(
            "NVIDIA-Linux-x86_64-"@.len() as int,
            installer_filename(version).len() - ".run"@.len(),
        ) == version,
{
}

/// The version can be read back from the file name of every listed driver, and
/// from nothing else: a file name gives a version exactly if it is the
/// installer's name for that version.
pub proof fn filename_gives_version_back(filename: Seq<char>, version: Seq<char>)
    ensures
        version_of_filename(filename) == Some(version) <==> is_version(version) && filename
            == installer_filename(version),
{
    lemma_filename_parts(version);
}

proof fn lemma_linked_driver(links: Seq<Option<Seq<char>>>, i: int)
    requires
        0 <= i < linked_drivers(links).len(),
    ensures
        is_version(linked_drivers(links)[i].version),
        linked_drivers(links)[i] == driver_of(linked_drivers(links)[i].version),
    decreases links.len(),
{
    let rest = linked_drivers(links.drop_last());
    if i < rest.len() {
        lemma_linked_driver(links.drop_last(), i);
    }
}

/// Every driver of a listing comes with the file name and address of its
/// version, and its version can be read back from its file name.
pub proof fn listed_drivers_are_consistent(
    sorted: Seq<DriverVersionView>,
    links: Seq<Option<Seq<char>>>,
    i: int,
)
    requires
        is_sorted_from(sorted, linked_drivers(links)),
        0 <= i < sorted.len(),
    ensures
        is_version(sorted[i].version),
        sorted[i] == driver_of(sorted[i].version),
        version_of_filename(sorted[i].filename) == Some(sorted[i].version),
{
    let list = linked_drivers(links);
    sorting_keeps_versions(sorted, list);
    broadcast use vstd::seq_lib::group_to_multiset_ensures;

    assert(sorted.contains(sorted[i]));
    assert(sorted.to_multiset().count(sorted[i]) > 0);
    assert(list.contains(sorted[i]));
    let j = choose|j: int| 0 <= j < list.len() && list[j] == sorted[i];
    lemma_linked_driver(links, j);
    filename_gives_version_back(sorted[i].filename, sorted[i].version);
}

} // verus!
