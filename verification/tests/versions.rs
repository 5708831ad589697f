use green_light::versions::{
    begin_checksum_search, checksum_from_manifest, checksum_from_sidecar, classify_branch,
    compare_versions, continue_checksum_search, driver, manifest_url, sidecar_url,
    sort_newest_first, version_from_filename, version_from_link, version_numbers,
    versions_from_links, versions_from_listing, ChecksumSource, ChecksumStep, DriverBranch,
    DriverVersion, Reply, VersionRelation,
};

const SUM: &str = "ba7816bf8f01cfea414140de5dae2223b00361a396177a9cb410ff61f20015ad";

fn names(list: &[DriverVersion]) -> Vec<&str> {
    list.iter().map(|d| d.version.as_str()).collect()
}

#[test]
fn classifies_known_branches() {
    assert_eq!(classify_branch("610.57.04"), Some(DriverBranch::NewFeature));
    assert_eq!(classify_branch("595.91.07"), Some(DriverBranch::Production));
    assert_eq!(classify_branch("580.178.04"), Some(DriverBranch::LongTermSupport));
    assert_eq!(classify_branch("470.256.02"), Some(DriverBranch::Legacy));
    assert_eq!(classify_branch("390.157"), Some(DriverBranch::Legacy));
}

#[test]
fn leaves_unmatched_versions_unlabeled() {
    assert_eq!(classify_branch("570.211.01"), None);
    assert_eq!(classify_branch("535.309.01"), None);
    assert_eq!(classify_branch("96.43.23"), None);
}

#[test]
fn classifies_by_number_not_by_text() {
    assert_eq!(classify_branch("+595"), Some(DriverBranch::Production));
    assert_eq!(classify_branch("0595.1"), Some(DriverBranch::Production));
    assert_eq!(classify_branch(""), None);
    assert_eq!(classify_branch(".595"), None);
    assert_eq!(classify_branch("5950"), None);
    assert_eq!(classify_branch("4294967891.1"), None);
}

#[test]
fn branches_have_labels_and_classes() {
    assert_eq!(DriverBranch::NewFeature.label(), "New Feature");
    assert_eq!(DriverBranch::Production.label(), "Production");
    assert_eq!(DriverBranch::LongTermSupport.label(), "LTS");
    assert_eq!(DriverBranch::Legacy.label(), "Legacy");
    assert_eq!(DriverBranch::NewFeature.css_class(), "accent");
    assert_eq!(DriverBranch::Production.css_class(), "success");
    assert_eq!(DriverBranch::LongTermSupport.css_class(), "warning");
    assert_eq!(DriverBranch::Legacy.css_class(), "dim-label");
}

#[test]
fn compare_newer_same_older() {
    assert!(compare_versions("595.84", "595.91.07") == VersionRelation::Newer);
    assert!(compare_versions("595.84", "595.84") == VersionRelation::Same);
    assert!(compare_versions("595.91.07", "595.84") == VersionRelation::Older);
    assert!(compare_versions("580.178.04", "595.45.04") == VersionRelation::Newer);
}

#[test]
fn compare_numeric_not_lexicographic() {
    // 595.9 < 595.10 numerically even though "9" > "1" as text.
    assert!(compare_versions("595.9", "595.10") == VersionRelation::Newer);
}

#[test]
fn compare_unknown_on_unparseable() {
    assert!(compare_versions("", "595.84") == VersionRelation::Unknown);
    assert!(compare_versions("595.84", "abc") == VersionRelation::Unknown);
}

#[test]
fn compare_is_antisymmetric_and_transitive() {
    let versions = ["390.157", "595.9", "595.9.0", "595.10", "595.x.10", "abc"];
    for a in versions {
        for b in versions {
            let mirrored = match compare_versions(b, a) {
                VersionRelation::Newer => VersionRelation::Older,
                VersionRelation::Older => VersionRelation::Newer,
                other => other,
            };
            assert!(compare_versions(a, b) == mirrored);
            for c in versions {
                if compare_versions(a, b) == VersionRelation::Newer
                    && compare_versions(b, c) == VersionRelation::Newer
                {
                    assert!(compare_versions(a, c) == VersionRelation::Newer);
                }
            }
        }
    }
    assert!(compare_versions("595.10", "595.x.10") == VersionRelation::Same);
    assert!(compare_versions("595.9", "595.9.0") == VersionRelation::Newer);
}

#[test]
fn numbers_of_a_version() {
    assert_eq!(version_numbers("595.84.01"), vec![595, 84, 1]);
    assert_eq!(version_numbers("595.beta.4294967295.4294967296"), vec![595, 4294967295]);
    assert_eq!(version_numbers(""), Vec::<u32>::new());
}

#[test]
fn version_of_a_file_name() {
    let version = |name: &str| version_from_filename(name);
    assert_eq!(version("NVIDIA-Linux-x86_64-595.84.run").as_deref(), Some("595.84"));
    assert_eq!(version("NVIDIA-Linux-x86_64-595.84.01.run").as_deref(), Some("595.84.01"));
    assert_eq!(version("NVIDIA-Linux-x86_64-595.84-vulkan.run"), None);
    assert_eq!(version("NVIDIA-Linux-x86_64-595.run"), None);
    assert_eq!(version("NVIDIA-Linux-x86_64-595.84.01.02.run"), None);
    assert_eq!(version("NVIDIA-Linux-x86_64-595..84.run"), None);
    assert_eq!(version("xNVIDIA-Linux-x86_64-595.84.run"), None);
    assert_eq!(version("NVIDIA-Linux-x86_64-595.84.run\n"), None);
    assert_eq!(version("NVIDIA-Linux-x86_64-595.84xrun"), None);
    assert_eq!(version(""), None);
    assert_eq!(version("NVIDIA-Linux-x86_64-\u{0665}.\u{0669}.run").as_deref(), Some("\u{0665}.\u{0669}"));
    assert_eq!(version("NVIDIA-Linux-x86_64-\u{00b2}.1.run"), None);
}

#[test]
fn version_of_a_link() {
    assert_eq!(version_from_link("595.84/").as_deref(), Some("595.84"));
    assert_eq!(version_from_link("595.84.01").as_deref(), Some("595.84.01"));
    assert_eq!(version_from_link("595.84//"), None);
    assert_eq!(version_from_link("/595.84/"), None);
    assert_eq!(version_from_link("../"), None);
    assert_eq!(version_from_link("latest.txt"), None);
    assert_eq!(version_from_link(""), None);
}

#[test]
fn driver_of_a_version() {
    let d = driver("595.84");
    assert_eq!(d.version, "595.84");
    assert_eq!(d.filename, "NVIDIA-Linux-x86_64-595.84.run");
    assert_eq!(
        d.url,
        "https://download.nvidia.com/XFree86/Linux-x86_64/595.84/NVIDIA-Linux-x86_64-595.84.run"
    );
    assert_eq!(d.branch, Some(DriverBranch::Production));
    assert_eq!(version_from_filename(&d.filename).as_deref(), Some("595.84"));
}

#[test]
fn sorts_newest_first_and_keeps_ties_in_order() {
    let list = ["595.9", "610.1", "595.09", "390.157", "595.10"];
    let sorted = sort_newest_first(list.iter().map(|v| driver(v)).collect());
    assert_eq!(names(&sorted), ["610.1", "595.10", "595.9", "595.09", "390.157"]);
    let again = sort_newest_first(sorted.clone());
    assert_eq!(names(&again), names(&sorted));
    assert!(sort_newest_first(Vec::new()).is_empty());
}

#[test]
fn reads_the_links_that_are_versions() {
    let links = vec![
        Some("../".to_string()),
        None,
        Some("470.256.02/".to_string()),
        Some("595.84".to_string()),
        Some("latest.txt".to_string()),
    ];
    let list = versions_from_links(&links);
    assert_eq!(names(&list), ["595.84", "470.256.02"]);
}

#[test]
fn reads_a_listing() {
    let html = "<html><body><pre>\
        <a href=\"../\">up</a>\
        <a>595.99</a>\
        <span class='dir'><a href='580.178.04/'>580.178.04/</a></span>\n\
        <a href='610.57.04/'>610.57.04/</a>\
        <a href=\"595.9&#49;.07/\">x</a>\
        <a href='latest.txt'>latest.txt</a>\
        <!-- <a href='1.2/'>old</a> -->\
        </pre></body></html>";
    let list = versions_from_listing(html);
    assert_eq!(names(&list), ["610.57.04", "595.91.07", "580.178.04"]);
    assert_eq!(list[1].branch, Some(DriverBranch::Production));
    assert!(versions_from_listing("").is_empty());
}

#[test]
fn finds_a_checksum_in_a_manifest() {
    let file = "NVIDIA-Linux-x86_64-595.84.run";
    let other = "0".repeat(64);
    let manifest = format!("{other}  other.run\nshort  {file}\r\n\n{SUM}  {file}\n{other}  {file}\n");
    assert_eq!(checksum_from_manifest(&manifest, file).as_deref(), Some(SUM));
    assert_eq!(checksum_from_manifest(&manifest, "absent.run"), None);
    assert_eq!(checksum_from_manifest("", file), None);
}

#[test]
fn finds_a_checksum_beside_the_installer() {
    assert_eq!(checksum_from_sidecar(&format!(" \n{SUM}  f.run\n")).as_deref(), Some(SUM));
    assert_eq!(checksum_from_sidecar("  "), None);
    assert_eq!(checksum_from_sidecar(&SUM[1..]), None);
    // The length is counted in bytes.
    let accents = "\u{e9}".repeat(32);
    assert_eq!(checksum_from_sidecar(&accents).as_deref(), Some(accents.as_str()));
}

#[test]
fn addresses_of_checksums() {
    let d = driver("595.84");
    assert_eq!(
        manifest_url(&d),
        "https://download.nvidia.com/XFree86/Linux-x86_64/595.84/.manifest"
    );
    assert_eq!(
        sidecar_url(&d),
        "https://download.nvidia.com/XFree86/Linux-x86_64/595.84/NVIDIA-Linux-x86_64-595.84.run.sha256sum"
    );
}

#[test]
fn search_takes_the_manifest_first() {
    let d = driver("595.84");
    match begin_checksum_search(&d) {
        ChecksumStep::Ask { source, url } => {
            assert_eq!(source, ChecksumSource::Manifest);
            assert_eq!(url, manifest_url(&d));
        }
        _ => panic!("the search begins with a request"),
    }
    let body = format!("{SUM}  {}\n", d.filename);
    match continue_checksum_search(&d, ChecksumSource::Manifest, Reply::Body(body)) {
        ChecksumStep::Done(found) => assert_eq!(found.as_deref(), Some(SUM)),
        _ => panic!("the manifest gives the checksum"),
    }
}

#[test]
fn search_falls_back_to_the_sidecar() {
    let d = driver("595.84");
    for reply in [Reply::Unreachable, Reply::Refused, Reply::Body("nothing\n".to_string())] {
        match continue_checksum_search(&d, ChecksumSource::Manifest, reply) {
            ChecksumStep::Ask { source, url } => {
                assert_eq!(source, ChecksumSource::Sidecar);
                assert_eq!(url, sidecar_url(&d));
            }
            _ => panic!("the search goes on"),
        }
    }
    let body = Reply::Body(format!("{SUM}  f\n"));
    match continue_checksum_search(&d, ChecksumSource::Sidecar, body) {
        ChecksumStep::Done(found) => assert_eq!(found.as_deref(), Some(SUM)),
        _ => panic!("the sidecar gives the checksum"),
    }
}

#[test]
fn search_tells_failure_from_absence() {
    let d = driver("595.84");
    for source in [ChecksumSource::Manifest, ChecksumSource::Sidecar] {
        assert!(matches!(
            continue_checksum_search(&d, source, Reply::Unreadable),
            ChecksumStep::Failed
        ));
    }
    for reply in [Reply::Unreachable, Reply::Refused, Reply::Body(String::new())] {
        assert!(matches!(
            continue_checksum_search(&d, ChecksumSource::Sidecar, reply),
            ChecksumStep::Done(None)
        ));
    }
}
