//! Laws of what is read about the system.

use crate::laws::text as text_laws;
use crate::number;
use crate::system;
use crate::system::{
    CommandOutput, DkmsEntryView, DriverProbe, SecureBootProbe, SecureBootStatus, SystemProbe,
};
use crate::text;
use crate::text::Separator;
use vstd::arithmetic::power2::*;
use vstd::prelude::*;
use vstd::utf8::*;

verus! {

/// Whether `s` is white space only, or empty.
pub open spec fn is_blank(s: Seq<char>) -> bool {
    forall|i: int| 0 <= i < s.len() ==> text::is_white_space(#[trigger] s[i])
}

proof fn lemma_trim_surrounded(before: Seq<char>, s: Seq<char>, after: Seq<char>)
    requires
        is_blank(before),
        is_blank(after),
        s.len() > 0 ==> text::is_trimmed(s),
    ensures
        text::trim(before + s + after) == s,
    decreases after.len(),
{
    if s.len() == 0 {
        let all = before + s + after;
        let (a, b) = text_laws::trimming_takes_white_space_only(all);
        if a < b {
            assert(text::is_white_space(all[a])) by {
                if a < before.len() {
                    assert(all[a] == before[a]);
                } else {
                    assert(all[a] == after[a - before.len()]);
                }
            }
        }
        assert(text::trim(all) == s);
    } else if after.len() == 0 {
        assert(before + s + after == before + s);
        text::lemma_trim_padded(before, s);
    } else {
        let less = after.drop_last();
        assert forall|i: int| 0 <= i < less.len() implies text::is_white_space(
            #[trigger] less[i],
        ) by {
            assert(less[i] == after[i]);
        }
        lemma_trim_surrounded(before, s, less);
        let all = before + s + after;
        let (a, b) = text_laws::trimming_takes_white_space_only(all);
        let n = before.len() as int;
        assert(all[n] == s.first());
        assert(all[n + s.len() - 1] == s.last());
        if a > n {
            assert(text::is_white_space(all[n]));
        }
        if b < n + s.len() {
            assert(text::is_white_space(all[n + s.len() - 1]));
        }
        if a < n {
            assert(all[a] == before[a]);
        }
        if b > n + s.len() {
            assert(all[b - 1] == after[b - 1 - n - s.len()]);
        }
        assert(all.subrange(n, n + s.len()) == s);
    }
}

/// What a command reports is its output without the white space around it, if
/// the command succeeded and printed something else than white space.
pub proof fn reports_are_trimmed(
    output: CommandOutput,
    before: Seq<char>,
    answer: Seq<char>,
    after: Seq<char>,
)
    requires
        is_blank(before),
        is_blank(after),
        answer.len() > 0 ==> text::is_trimmed(answer),
        text::lossy_text(output.stdout@) == before + answer + after,
    ensures
        output.success && answer.len() > 0 ==> system::reported(Some(output)) == Some(answer),
        !output.success || answer.len() == 0 ==> system::reported(Some(output)) is None,
        system::reported(None) is None,
        system::kernel_release(Some(output)) == answer,
        system::kernel_release(None) == "unknown"@,
{
    lemma_trim_surrounded(before, answer, after);
}

/// The running driver is what `nvidia-smi` reports, and what the kernel reports
/// only where `nvidia-smi` reports nothing.
pub proof fn smi_is_asked_first(probe: DriverProbe)
    ensures
        system::reported(probe.smi) is Some ==> system::running_driver(probe)
            == system::smi_version(probe.smi) && system::running_driver(probe) is Some,
        system::reported(probe.smi) is None ==> system::running_driver(probe) == (
        match probe.proc_version {
            Some(content) => system::module_line_version(text::lines(content@)),
            None => None,
        }),
        system::smi_version(probe.smi) is Some <==> system::reported(probe.smi) is Some,
{
}

/// The version is read from the first line that `nvidia-smi` prints, whatever
/// follows it.
pub proof fn smi_gives_its_first_line(
    output: CommandOutput,
    before: Seq<char>,
    version: Seq<char>,
    rest: Seq<char>,
)
    requires
        output.success,
        is_blank(before),
        text::is_trimmed(version),
        system::is_one_line(version),
        text::lossy_text(output.stdout@) == before + (version + seq!['\n'] + rest),
    ensures
        system::smi_version(Some(output)) == Some(version),
{
    let all = version + seq!['\n'] + rest;
    let n = version.len() as int;
    assert(all[0] == version.first());
    assert(all[n - 1] == version.last());
    let k = text::lemma_trim_keeps(all, n);
    lemma_blank_is_dropped(before, all);
    let answer = text::trim(all);
    if k == n {
        assert(answer == version);
        text::lemma_one_line(version);
    } else {
        assert(answer == version + seq!['\n'] + rest.take(k - n - 1));
        text::lemma_first_line(version, rest.take(k - n - 1));
    }
    text::lemma_trim_padded(Seq::empty(), version);
    assert(Seq::<char>::empty() + version == version);
}

proof fn lemma_blank_is_dropped(before: Seq<char>, s: Seq<char>)
    requires
        is_blank(before),
    ensures
        text::trim(before + s) == text::trim(s),
    decreases before.len(),
{
    if before.len() == 0 {
        assert(before + s == s);
    } else {
        let less = before.drop_first();
        assert forall|i: int| 0 <= i < less.len() implies text::is_white_space(
            #[trigger] less[i],
        ) by {
            assert(less[i] == before[i + 1]);
        }
        assert(text::is_white_space(before[0]));
        assert((before + s).first() == before[0]);
        assert((before + s).drop_first() == less + s);
        lemma_blank_is_dropped(less, s);
    }
}

/// Whether `line` reports the version `version` of the kernel module: the word
/// after the first word `Module`.
pub open spec fn reports_module(line: Seq<char>, version: Seq<char>) -> bool {
    &&& text::contains(line, "NVRM version"@)
    &&& exists|i: int|
        {
            &&& 0 <= i < text::words(line).len() - 1
            &&& #[trigger] text::words(line)[i] == "Module"@
            &&& text::words(line)[i + 1] == version
            &&& forall|j: int| 0 <= j < i ==> #[trigger] text::words(line)[j] != "Module"@
        }
}

proof fn lemma_word_after(words: Seq<Seq<char>>, marker: Seq<char>)
    ensures
        match system::word_after(words, marker) {
            Some(w) => exists|i: int|
                {
                    &&& 0 <= i < words.len() - 1
                    &&& #[trigger] words[i] == marker
                    &&& words[i + 1] == w
                    &&& forall|j: int| 0 <= j < i ==> #[trigger] words[j] != marker
                },
            None => forall|j: int| 0 <= j < words.len() - 1 ==> #[trigger] words[j] != marker,
        },
    decreases words.len(),
{
    if words.len() >= 2 {
        let rest = words.drop_first();
        lemma_word_after(rest, marker);
        if words[0] != marker {
            match system::word_after(rest, marker) {
                Some(w) => {
                    let i = choose|i: int|
                        {
                            &&& 0 <= i < rest.len() - 1
                            &&& #[trigger] rest[i] == marker
                            &&& rest[i + 1] == w
                            &&& forall|j: int| 0 <= j < i ==> #[trigger] rest[j] != marker
                        };
                    assert(words[i + 1] == marker);
                    assert(words[i + 2] == w);
                    assert forall|j: int| 0 <= j < i + 1 implies #[trigger] words[j] != marker by {
                        if j > 0 {
                            assert(words[j] == rest[j - 1]);
                        }
                    }
                },
                None => {
                    assert forall|j: int| 0 <= j < words.len() - 1 implies #[trigger] words[j]
                        != marker by {
                        if j > 0 {
                            assert(words[j] == rest[j - 1]);
                        }
                    }
                },
            }
        } else {
            assert(words[0] == marker && words[1] == system::word_after(words, marker).unwrap());
        }
    }
}

proof fn lemma_reports_module(line: Seq<char>)
    ensures
        text::contains(line, "NVRM version"@) ==> (match system::word_after(
            text::words(line),
            "Module"@,
        ) {
            Some(v) => reports_module(line, v),
            None => forall|v: Seq<char>| !#[trigger] reports_module(line, v),
        }),
        !text::contains(line, "NVRM version"@) ==> forall|v: Seq<char>|
            !#[trigger] reports_module(line, v),
{
    lemma_word_after(text::words(line), "Module"@);
}

/// The kernel's report is read line by line: the version is that of the first
/// line which reports the module, and there is none only if no line does.
pub proof fn first_line_that_reports_the_module(lines: Seq<Seq<char>>)
    ensures
        match system::module_line_version(lines) {
            Some(v) => exists|k: int|
                {
                    &&& 0 <= k < lines.len()
                    &&& reports_module(#[trigger] lines[k], v)
                    &&& forall|j: int, other: Seq<char>|
                        0 <= j < k ==> !#[trigger] reports_module(lines[j], other)
                },
            None => forall|j: int, other: Seq<char>|
                0 <= j < lines.len() ==> !#[trigger] reports_module(lines[j], other),
        },
    decreases lines.len(),
{
    if lines.len() > 0 {
        let rest = lines.drop_first();
        lemma_reports_module(lines[0]);
        first_line_that_reports_the_module(rest);
        let here = text::contains(lines[0], "NVRM version"@) && system::word_after(
            text::words(lines[0]),
            "Module"@,
        ) is Some;
        if here {
            assert(reports_module(lines[0], system::module_line_version(lines).unwrap()));
        } else {
            assert(forall|other: Seq<char>| !reports_module(lines[0], other));
            match system::module_line_version(rest) {
                Some(v) => {
                    let k = choose|k: int|
                        {
                            &&& 0 <= k < rest.len()
                            &&& reports_module(#[trigger] rest[k], v)
                            &&& forall|j: int, other: Seq<char>|
                                0 <= j < k ==> !#[trigger] reports_module(rest[j], other)
                        };
                    assert forall|j: int, other: Seq<char>|
                        0 <= j < k + 1 implies !#[trigger] reports_module(lines[j], other) by {
                        if j > 0 {
                            assert(!reports_module(rest[j - 1], other));
                        }
                    }
                    assert(reports_module(lines[k + 1], v));
                },
                None => {
                    assert forall|j: int, other: Seq<char>|
                        0 <= j < lines.len() implies !#[trigger] reports_module(
                        lines[j],
                        other,
                    ) by {
                        if j > 0 {
                            assert(!reports_module(rest[j - 1], other));
                        }
                    }
                },
            }
        }
    }
}

/// The entries of `dkms status` are those of its lines, one after the other: a
/// line adds its own entry, if it has one, and changes no other.
pub proof fn dkms_lines_stand_for_themselves(
    before: Seq<Seq<char>>,
    line: Seq<char>,
    output: CommandOutput,
)
    ensures
        system::dkms_entries(Seq::empty()) == Seq::<DkmsEntryView>::empty(),
        system::dkms_entry(line) matches Some(entry) ==> system::dkms_entries(before.push(line))
            == system::dkms_entries(before).push(entry),
        system::dkms_entry(line) is None ==> system::dkms_entries(before.push(line))
            == system::dkms_entries(before),
        system::dkms_modules(None) == Seq::<DkmsEntryView>::empty(),
        system::dkms_modules(Some(output)) == system::dkms_entries(
            text::lines(text::lossy_text(output.stdout@)),
        ),
{
    assert(before.push(line).drop_last() == before);
}

/// A line has an entry exactly if it begins with `nvidia`, in letters of either
/// case, after its white space.
pub proof fn dkms_entries_are_nvidia_lines(before: Seq<char>, line: Seq<char>, after: Seq<char>)
    requires
        is_blank(before),
        is_blank(after),
        line.len() > 0 ==> text::is_trimmed(line),
    ensures
        system::dkms_entry(before + line + after) is Some <==> line.len() >= 6
            && text::ascii_lowercase(line.take(6)) == "nvidia"@,
        system::dkms_entry(before + line + after) == system::dkms_entry(line),
{
    lemma_trim_surrounded(before, line, after);
    lemma_trim_surrounded(Seq::empty(), line, Seq::empty());
    assert(Seq::<char>::empty() + line + Seq::<char>::empty() == line);
    system::nvidia_is_spelled_in_ascii(line);
}

/// The fields of a specification are read from left to right: slashes and commas
/// separate them, white space around them is dropped, and so are empty ones.
pub proof fn dkms_fields_are_separated(
    before: Seq<char>,
    field: Seq<char>,
    after: Seq<char>,
    cut: char,
    rest: Seq<char>,
)
    requires
        is_blank(before),
        is_blank(after),
        field.len() > 0 ==> text::is_trimmed(field),
        forall|i: int|
            0 <= i < field.len() ==> #[trigger] field[i] != '/' && field[i] != ',',
        cut == '/' || cut == ',',
    ensures
        ({
            let own = if field.len() > 0 {
                seq![field]
            } else {
                Seq::<Seq<char>>::empty()
            };
            &&& system::dkms_fields(before + field + after) == own
            &&& system::dkms_fields(before + field + after + seq![cut] + rest) == own
                + system::dkms_fields(rest)
        }),
{
    let piece = before + field + after;
    lemma_trim_surrounded(before, field, after);
    assert forall|i: int| 0 <= i < piece.len() implies !text::cuts(
        Separator::SlashOrComma,
        #[trigger] piece[i],
    ) by {
        if i < before.len() {
            assert(piece[i] == before[i]);
            assert(text::is_white_space(before[i]));
        } else if i < before.len() + field.len() {
            assert(piece[i] == field[i - before.len()]);
        } else {
            assert(piece[i] == after[i - before.len() - field.len()]);
            assert(text::is_white_space(after[i - before.len() - field.len()]));
        }
    }
    let nothing = Seq::<Seq<char>>::empty();
    text::lemma_split_whole(piece, Separator::SlashOrComma);
    text::lemma_split_at(piece, cut, rest, Separator::SlashOrComma);
    let pieces = text::split(rest, Separator::SlashOrComma);
    assert(system::trim_each(seq![piece]) == seq![field] + nothing);
    assert(system::trim_each(seq![piece] + pieces) == seq![field] + system::trim_each(pieces));
    if field.len() > 0 {
        text::lemma_non_empty_first(field, nothing);
        text::lemma_non_empty_first(field, system::trim_each(pieces));
        assert(text::non_empty(nothing) == nothing);
        assert(seq![field] + nothing == seq![field]);
    } else {
        assert(field == Seq::<char>::empty());
        text_laws::lemma_empty_first(nothing);
        text_laws::lemma_empty_first(system::trim_each(pieces));
        assert(text::non_empty(nothing) == nothing);
    }
}

/// The status of an NVIDIA line is what follows its last colon, and is unknown
/// without one; the first three fields before it are the module, the version and
/// the kernel, and what is missing is filled in.
pub proof fn dkms_line_is_divided_at_the_last_colon(spec: Seq<char>, status: Seq<char>)
    requires
        text::is_trimmed(spec + seq![':'] + status) || text::is_trimmed(spec),
        forall|i: int| 0 <= i < status.len() ==> #[trigger] status[i] != ':',
    ensures
        text::is_trimmed(spec + seq![':'] + status) ==> (system::dkms_entry(
            spec + seq![':'] + status,
        ) matches Some(entry) ==> {
            let fields = system::dkms_fields(text::trim(spec));
            &&& entry.status == text::trim(status)
            &&& entry.module == (if fields.len() > 0 {
                fields[0]
            } else {
                "nvidia"@
            })
            &&& entry.version == (if fields.len() > 1 {
                fields[1]
            } else {
                "?"@
            })
            &&& entry.kernel == (if fields.len() > 2 {
                fields[2]
            } else {
                "\u{2014}"@
            })
        }),
        text::is_trimmed(spec) && (forall|i: int| 0 <= i < spec.len() ==> #[trigger] spec[i] != ':')
            ==> (system::dkms_entry(spec) matches Some(entry) ==> {
            let fields = system::dkms_fields(spec);
            &&& entry.status == "unknown"@
            &&& entry.module == (if fields.len() > 0 {
                fields[0]
            } else {
                "nvidia"@
            })
            &&& entry.version == (if fields.len() > 1 {
                fields[1]
            } else {
                "?"@
            })
            &&& entry.kernel == (if fields.len() > 2 {
                fields[2]
            } else {
                "\u{2014}"@
            })
        }),
{
    let none = Seq::<char>::empty();
    let line = spec + seq![':'] + status;
    if text::is_trimmed(line) {
        lemma_trim_surrounded(none, line, none);
        assert(none + line + none == line);
        assert forall|i: int| spec.len() < i < line.len() implies #[trigger] line[i] != ':' by {
            assert(line[i] == status[i - spec.len() - 1]);
        }
        text::lemma_last_position(line, ':', spec.len() as int);
        assert(line.take(spec.len() as int) == spec);
        assert(line.skip(spec.len() as int + 1) == status);
    }
    if text::is_trimmed(spec) && (forall|i: int| 0 <= i < spec.len() ==> #[trigger] spec[i] != ':') {
        lemma_trim_surrounded(none, spec, none);
        assert(none + spec + none == spec);
        text::lemma_last_position(spec, ':', -1);
    }
}

proof fn lemma_lower_concat(a: Seq<char>, b: Seq<char>)
    requires
        is_ascii_chars(a),
        is_ascii_chars(b),
    ensures
        is_ascii_chars(a + b),
        text::lowercase(a + b) == text::lowercase(a) + text::lowercase(b),
{
    assert forall|i: int| 0 <= i < (a + b).len() implies '\0' <= #[trigger] (a + b)[i]
        <= '\u{7f}' by {
        if i < a.len() {
            assert((a + b)[i] == a[i]);
        } else {
            assert((a + b)[i] == b[i - a.len()]);
        }
    }
    assert(text::lowercase(a + b) == text::lowercase(a) + text::lowercase(b));
}

/// `mokutil` says that Secure Boot is enabled wherever `SecureBoot enabled`
/// stands in its output, in letters of any case. It says that Secure Boot is
/// disabled only if it does not say that it is enabled.
pub proof fn mokutil_is_believed(
    output: CommandOutput,
    before: Seq<char>,
    answer: Seq<char>,
    after: Seq<char>,
)
    requires
        is_ascii_chars(before),
        is_ascii_chars(answer),
        is_ascii_chars(after),
        text::lossy_text(output.stdout@) == before + answer + after,
    ensures
        text::lowercase(answer) == "secureboot enabled"@ ==> system::mokutil_status(Some(output))
            == SecureBootStatus::Enabled,
        text::lowercase(answer) == "secureboot disabled"@ ==> system::mokutil_status(Some(output))
            != SecureBootStatus::Unknown,
{
    lemma_lower_concat(before, answer);
    lemma_lower_concat(before + answer, after);
    text_laws::contained_means_surrounded(
        text::lowercase(before),
        text::lowercase(answer),
        text::lowercase(after),
        Seq::empty(),
    );
}

/// What `mokutil` says is one of three things, and no two at once; without
/// `mokutil` nothing is known.
pub proof fn mokutil_says_one_thing(output: CommandOutput)
    ensures
        ({
            let said = text::lowercase(text::lossy_text(output.stdout@));
            let status = system::mokutil_status(Some(output));
            let on = text::contains(said, "secureboot enabled"@);
            let off = text::contains(said, "secureboot disabled"@);
            &&& status == SecureBootStatus::Enabled <==> on
            &&& status == SecureBootStatus::Disabled <==> off && !on
            &&& status == SecureBootStatus::Unknown <==> !off && !on
        }),
        system::mokutil_status(None) == SecureBootStatus::Unknown,
{
}

/// Byte 4 of the EFI variable is asked where `mokutil` does not know: 1 means
/// that Secure Boot is enabled.
pub proof fn efi_variable_is_asked_last(probe: SecureBootProbe)
    ensures
        system::mokutil_status(probe.mokutil) != SecureBootStatus::Unknown
            ==> system::secure_boot_status(probe) == system::mokutil_status(probe.mokutil),
        system::mokutil_status(probe.mokutil) == SecureBootStatus::Unknown ==> {
            let status = system::secure_boot_status(probe);
            &&& status == SecureBootStatus::Unknown <==> probe.efi_variable is None
            &&& status == SecureBootStatus::Enabled <==> (probe.efi_variable matches Some(bytes)
                && bytes@.len() >= 5 && bytes@[4] == 1)
        },
{
}

/// The free space is the number that stands on the second line of what `df`
/// prints, with white space around it.
pub proof fn free_space_is_on_the_second_line(
    output: CommandOutput,
    header: Seq<char>,
    before: Seq<char>,
    n: nat,
    after: Seq<char>,
    rest: Seq<char>,
)
    requires
        forall|i: int| 0 <= i < header.len() ==> #[trigger] header[i] != '\n',
        header.len() == 0 || header.last() != '\r',
        is_blank(before) && system::is_one_line(before),
        is_blank(after) && system::is_one_line(after),
        after.len() == 0 || after.last() != '\r',
        text::lossy_text(output.stdout@) == header + seq!['\n'] + (before + number::decimal(n)
            + after + seq!['\n'] + rest),
    ensures
        system::free_space(Some(output)) == if n <= 18446744073709551615 {
            Some(n)
        } else {
            None
        },
        system::free_space(None) is None,
{
    let numeral = number::decimal(n);
    let line = before + numeral + after;
    number::decimal_is_numeral(n);
    assert(number::is_digit(numeral[0]));
    assert(number::is_digit(numeral[numeral.len() - 1]));
    assert forall|i: int| 0 <= i < line.len() implies #[trigger] line[i] != '\n' by {
        if i < before.len() {
            assert(line[i] == before[i]);
        } else if i < before.len() + numeral.len() {
            assert(line[i] == numeral[i - before.len()]);
            assert(number::is_digit(numeral[i - before.len()]));
        } else {
            assert(line[i] == after[i - before.len() - numeral.len()]);
        }
    }
    if after.len() == 0 {
        assert(line.last() == numeral.last());
    } else {
        assert(line.last() == after.last());
    }
    text_laws::lines_end_with_line_feeds(header, line + seq!['\n'] + rest);
    text_laws::lines_end_with_line_feeds(line, rest);
    lemma_trim_surrounded(before, numeral, after);
    assert(number::without_plus(numeral) == numeral);
}

/// The free space is a number exactly if there is a second line and it is a
/// number, with white space around it.
pub proof fn free_space_is_a_number(output: CommandOutput, n: nat)
    ensures
        system::free_space(Some(output)) == Some(n) <==> {
            let lines = text::lines(text::lossy_text(output.stdout@));
            &&& lines.len() >= 2
            &&& number::parse(text::trim(lines[1]), 18446744073709551615) == Some(n)
        },
{
}

/// A reboot is required exactly if there is a driver on disk and it is not the
/// one that runs, or none runs.
pub proof fn reboot_is_for_another_driver(running: Seq<char>, on_disk: Seq<char>)
    ensures
        system::reboot_pending(Some(running), Some(on_disk)) <==> running != on_disk,
        system::reboot_pending(None, Some(on_disk)),
        !system::reboot_pending(Some(running), None),
        !system::reboot_pending(None, None),
{
}

/// Each thing that is known about the system comes from its own probe.
pub proof fn every_probe_has_its_place(probe: SystemProbe)
    ensures
        ({
            let info = system::system_info(probe);
            &&& info.installed_driver == system::running_driver(probe.driver)
            &&& info.gpu_name == system::reported(probe.gpu)
            &&& info.kernel_version == system::kernel_release(probe.kernel)
            &&& info.dkms_status == system::dkms_modules(probe.dkms)
            &&& info.secure_boot == system::secure_boot_status(probe.secure_boot)
            &&& info.free_disk_bytes is Some <==> system::free_space(probe.disk) is Some
            &&& info.free_disk_bytes matches Some(n) ==> system::free_space(probe.disk) == Some(
                n as nat,
            )
            &&& info.reboot_required <==> system::reboot_pending(
                system::running_driver(probe.reboot.running),
                system::reported(probe.reboot.module),
            )
        }),
{
}

/// Whether `t` is the number of tenths of `unit` nearest to `bytes`; of two that
/// are equally near, the even one.
pub open spec fn is_nearest_tenth(t: nat, bytes: nat, unit: nat) -> bool {
    let twice_off = 2 * (10 * bytes - t * unit);
    &&& -(unit as int) <= twice_off <= unit
    &&& (twice_off == unit || twice_off == -(unit as int)) ==> t % 2 == 0
}

proof fn lemma_round_is_nearest(n: nat, d: nat)
    requires
        d > 0,
    ensures
        ({
            let r = system::round_half_even(n, d);
            let twice_off = 2 * (n - r * d);
            &&& -(d as int) <= twice_off <= d
            &&& (twice_off == d || twice_off == -(d as int)) ==> r % 2 == 0
        }),
{
    let q = n / d;
    assert(n == q * d + n % d && 0 <= n % d < d) by (nonlinear_arith)
        requires
            d > 0,
            q == n / d,
    ;
    assert((q + 1) * d == q * d + d) by (nonlinear_arith);
}

/// A size is told in GB from 2^30 bytes on and in MB from 2^20 bytes on, to the
/// nearest tenth, and otherwise in whole KB. This is exact below 2^53 bytes.
pub proof fn sizes_are_told_to_the_nearest_tenth(bytes: nat) -> (t: nat)
    requires
        bytes < 0x20_0000_0000_0000,
    ensures
        bytes >= 1_073_741_824 ==> is_nearest_tenth(t, bytes, 1_073_741_824) && system::bytes_text(
            bytes,
        ) == number::decimal(t / 10) + "."@ + number::decimal(t % 10) + " GB"@,
        1_048_576 <= bytes < 1_073_741_824 ==> is_nearest_tenth(t, bytes, 1_048_576)
            && system::bytes_text(bytes) == number::decimal(t / 10) + "."@ + number::decimal(t % 10)
            + " MB"@,
        bytes < 1_048_576 ==> t * 1024 <= bytes < (t + 1) * 1024 && system::bytes_text(bytes)
            == number::decimal(t) + " KB"@,
{
    system::small_numbers_are_exact(bytes);
    if bytes >= 1_073_741_824 {
        lemma_round_is_nearest(10 * bytes, 1_073_741_824);
        system::round_half_even(10 * bytes, 1_073_741_824)
    } else if bytes >= 1_048_576 {
        lemma_round_is_nearest(10 * bytes, 1_048_576);
        system::round_half_even(10 * bytes, 1_048_576)
    } else {
        bytes / 1024
    }
}

proof fn lemma_spacing(n: nat)
    ensures
        system::double_spacing(n) >= 1,
        exists|k: nat| system::double_spacing(n) == #[trigger] pow2(k),
        n >= 0x20_0000_0000_0000 ==> 0x10_0000_0000_0000 * system::double_spacing(n) <= n
            < 0x20_0000_0000_0000 * system::double_spacing(n),
    decreases n,
{
    lemma2_to64();
    if n >= 0x20_0000_0000_0000 {
        lemma_spacing(n / 2);
        let k = choose|k: nat| system::double_spacing(n / 2) == #[trigger] pow2(k);
        lemma_pow2_unfold(k + 1);
        assert(system::double_spacing(n) == pow2(k + 1));
    } else {
        assert(system::double_spacing(n) == pow2(0));
    }
}

/// From 2^53 bytes on a size is told as the nearest double-precision number is:
/// a number of 53 bits times a power of two.
pub proof fn large_sizes_are_rounded_to_double_precision(bytes: nat) -> (parts: (nat, nat))
    requires
        bytes >= 0x20_0000_0000_0000,
    ensures
        ({
            let (significand, spacing) = parts;
            let twice_off = 2 * (bytes - significand * spacing);
            &&& exists|k: nat| spacing == #[trigger] pow2(k)
            &&& 0x10_0000_0000_0000 * spacing <= bytes < 0x20_0000_0000_0000 * spacing
            &&& -(spacing as int) <= twice_off <= spacing
            &&& (twice_off == spacing || twice_off == -(spacing as int)) ==> significand % 2 == 0
            &&& exists|t: nat|
                {
                    &&& #[trigger] is_nearest_tenth(t, significand * spacing, 1_073_741_824)
                    &&& system::bytes_text(bytes) == number::decimal(t / 10) + "."@
                        + number::decimal(t % 10) + " GB"@
                }
        }),
{
    let spacing = system::double_spacing(bytes);
    lemma_spacing(bytes);
    lemma_round_is_nearest(bytes, spacing);
    let significand = system::round_half_even(bytes, spacing);
    let rounded = significand * spacing;
    lemma_round_is_nearest(10 * rounded, 1_073_741_824);
    let t = system::round_half_even(10 * rounded, 1_073_741_824);
    assert(is_nearest_tenth(t, rounded, 1_073_741_824));
    (significand, spacing)
}

} // verus!
