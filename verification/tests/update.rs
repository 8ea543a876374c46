use gprox::update::{
    archive_digest, check_printed_version, checksum_for, install_outcome, latest_release_url,
    lookup_step, plan, plan_release, read_token, update_supported, verify_version, version_line,
    Asset, Download, LimitedBody, LookupStep, PackageInfo, Plan, Release, Version, ASSET_NAME,
    CHECKSUM_NAME, MAX_ARCHIVE_SIZE,
};

fn release(tag: &str) -> Release {
    let mut assets = Vec::new();
    for name in [ASSET_NAME, CHECKSUM_NAME] {
        assets.push(Asset {
            name: name.to_owned(),
            browser_download_url: format!(
                "https://github.com/Ziiilk/gprox/releases/download/{tag}/{name}"
            ),
        });
    }
    Release { tag_name: tag.to_owned(), draft: false, prerelease: false, assets }
}

fn same_version(left: &Version, right: &Version) -> bool {
    left.major == right.major
        && left.minor == right.minor
        && left.patch == right.patch
        && left.pre == right.pre
        && left.build == right.build
}

fn failure<T>(result: Result<T, gprox::failure::Failure>) -> String {
    match result {
        Ok(_) => panic!("a failure was expected"),
        Err(failure) => failure.message,
    }
}

#[test]
fn release_contract_rejects_ambiguous_versions_and_assets() {
    assert!(same_version(
        &release("v0.1.30").version().ok().unwrap(),
        &Version::new(0, 1, 30)
    ));
    for tag in ["0.1.30", "v01.1.0", "v1.0.0-beta.1", "v1.0.0+local", "v1.0"] {
        assert!(release(tag).version().is_err());
    }
    let mut valid = release("v0.1.1");
    assert!(valid.asset_url(ASSET_NAME).is_ok());
    assert!(valid.asset_url("other.zip").is_err());
    valid.assets[0].browser_download_url = "https://example.com/gprox.exe".into();
    assert!(valid.asset_url(ASSET_NAME).is_err());
    valid.prerelease = true;
    assert!(valid.version().is_err());
    // 0.1.30 is newer than 0.1.9.
    assert!(matches!(
        plan("0.1.9", Some(&release("v0.1.30")), true).ok().unwrap(),
        Plan::Available(_)
    ));
}

#[test]
fn checksums_require_exact_asset_and_valid_unique_digest() {
    let hash = "ab".repeat(32);
    assert_eq!(
        checksum_for(&format!("{hash}  {ASSET_NAME}\n"), ASSET_NAME).ok().unwrap(),
        hash
    );
    assert!(checksum_for(&format!("{hash} other.zip"), ASSET_NAME).is_err());
    assert!(checksum_for(&format!("abc {ASSET_NAME}"), ASSET_NAME).is_err());
    assert!(
        checksum_for(
            &format!("{hash} {ASSET_NAME}\n{hash} {ASSET_NAME}"),
            ASSET_NAME
        )
        .is_err()
    );
}

#[test]
fn checksum_errors_say_what_is_wrong() {
    let hash = "AB".repeat(32);
    assert_eq!(
        checksum_for(&format!("\r\n{hash} *{ASSET_NAME}\r\n"), ASSET_NAME).ok().unwrap(),
        "ab".repeat(32)
    );
    assert_eq!(
        failure(checksum_for("", ASSET_NAME)),
        format!("SHA256SUMS has no checksum for {ASSET_NAME}")
    );
    assert_eq!(
        failure(checksum_for(&format!("abc {ASSET_NAME}"), ASSET_NAME)),
        format!("Invalid SHA256 checksum for {ASSET_NAME}")
    );
    assert_eq!(
        failure(checksum_for(
            &format!("{hash} {ASSET_NAME}\nabc {ASSET_NAME}"),
            ASSET_NAME
        )),
        format!("Duplicate checksum for {ASSET_NAME}")
    );
    // A line with three words gives no digest.
    assert!(checksum_for(&format!("{hash} {ASSET_NAME} more"), ASSET_NAME).is_err());
}

#[test]
fn neither_order_nor_other_lines_matter() {
    let hash = "0f".repeat(32);
    let other = "1e".repeat(32);
    let lines = [
        format!("{hash}  {ASSET_NAME}"),
        format!("{other}  other.zip"),
        "# a remark of several words".to_owned(),
    ];
    for order in [[0, 1, 2], [2, 1, 0], [1, 0, 2]] {
        let list = format!("{}\n{}\n\n{}\n", lines[order[0]], lines[order[1]], lines[order[2]]);
        assert_eq!(checksum_for(&list, ASSET_NAME).ok().unwrap(), hash);
    }
}

#[test]
fn archive_digest_reads_bytes() {
    let hash = "0f".repeat(32);
    let bytes = format!("{hash}  {ASSET_NAME}\n").into_bytes();
    assert_eq!(archive_digest(bytes).ok().unwrap(), hash);
    assert!(failure(archive_digest(vec![0x61, 0xff])).contains("utf-8"));
    assert_eq!(
        failure(archive_digest(Vec::new())),
        format!("SHA256SUMS has no checksum for {ASSET_NAME}")
    );
}

#[test]
fn release_errors_say_what_is_wrong() {
    let mut draft = release("v1.0.0");
    draft.draft = true;
    assert_eq!(failure(draft.version()), "Only stable releases can be installed");
    assert_eq!(failure(release("1.0.0").version()), "Release tag must start with v");
    assert_eq!(failure(release("v1.0").version()), "Invalid release version");
    assert_eq!(
        failure(release("v1.0.0-beta.1").version()),
        "Release tag must be vMAJOR.MINOR.PATCH"
    );
    assert_eq!(
        failure(release("v1.0.0").accept_version(None)),
        "Invalid release version"
    );
    let mut doubled = release("v1.0.0");
    assert_eq!(
        failure(doubled.asset_url("other.zip")),
        "Release v1.0.0 is missing other.zip"
    );
    doubled.assets.push(Asset {
        name: ASSET_NAME.to_owned(),
        browser_download_url: String::new(),
    });
    assert_eq!(
        failure(doubled.asset_url(ASSET_NAME)),
        format!("Duplicate release asset: {ASSET_NAME}")
    );
    doubled.assets.pop();
    doubled.assets[0].browser_download_url = "https://example.com/".to_owned();
    assert_eq!(
        failure(doubled.asset_url(ASSET_NAME)),
        format!("Unexpected download URL for {ASSET_NAME}")
    );
}

#[test]
fn tags_give_versions_as_they_are_written() {
    for tag in ["v0.1.30", "v10.0.0", "v18446744073709551615.0.7"] {
        let version = release(tag).version().ok().unwrap();
        assert_eq!(format!("v{}", version.text()), tag);
    }
    for tag in ["v1.02.0", "v1.0.0-", "v1.0.0+", "v 1.0.0", "v1.0.0 ", "v18446744073709551616.0.0"] {
        assert_eq!(failure(release(tag).version()), "Invalid release version");
    }
}

#[test]
fn versions_are_written_with_all_their_parts() {
    assert_eq!(Version::new(0, 1, 30).text(), "0.1.30");
    let version = Version {
        major: 1,
        minor: 2,
        patch: 18446744073709551615,
        pre: "beta.1".to_owned(),
        build: "local".to_owned(),
    };
    assert_eq!(version.text(), "1.2.18446744073709551615-beta.1+local");
}

#[test]
fn plans_offer_only_newer_stable_releases() {
    let latest = release("v0.2.0");
    assert!(matches!(plan("0.1.9", None, false).ok().unwrap(), Plan::NoRelease));
    assert!(matches!(
        plan("0.2.0", Some(&latest), false).ok().unwrap(),
        Plan::UpToDate(_)
    ));
    assert!(matches!(
        plan("0.2.1", Some(&latest), false).ok().unwrap(),
        Plan::UpToDate(_)
    ));
    // A pre-release comes before its release.
    assert!(matches!(
        plan("0.2.0-beta.1", Some(&latest), false).ok().unwrap(),
        Plan::Install(_)
    ));
    assert!(matches!(
        plan("0.1.9", Some(&latest), true).ok().unwrap(),
        Plan::Available(_)
    ));
    assert!(matches!(
        plan("0.1.9", Some(&latest), false).ok().unwrap(),
        Plan::Install(_)
    ));
    assert_eq!(failure(plan("next", Some(&latest), false)), "Invalid version of this program");
    assert_eq!(
        failure(plan("0.1.9", Some(&release("0.2.0")), false)),
        "Release tag must start with v"
    );
    let mut bare = release("v0.2.0");
    bare.assets.pop();
    assert_eq!(
        failure(plan("0.1.9", Some(&bare), true)),
        "Release v0.2.0 is missing SHA256SUMS"
    );
    // Nothing is asked of a release that is not newer.
    assert!(plan("0.2.0", Some(&bare), true).is_ok());
    assert!(matches!(
        plan_release(&latest, Version::new(0, 2, 0), false, false).ok().unwrap(),
        Plan::Install(_)
    ));
    assert!(matches!(
        plan_release(&bare, Version::new(0, 2, 0), true, false).ok().unwrap(),
        Plan::UpToDate(_)
    ));
}

#[test]
fn plans_are_told_in_words() {
    assert_eq!(
        Plan::NoRelease.text("0.1.0"),
        "No stable releases published yet: https://github.com/Ziiilk/gprox/releases"
    );
    assert_eq!(
        Plan::UpToDate(Version::new(0, 1, 30)).text("0.2.0"),
        "Already up to date (latest stable: 0.1.30)"
    );
    assert_eq!(
        Plan::Available(Version::new(0, 1, 30)).text("0.1.9"),
        "Update available: 0.1.9 -> 0.1.30"
    );
    assert_eq!(
        Plan::Install(Version::new(0, 1, 30)).text("0.1.9"),
        "Update available: 0.1.9 -> 0.1.30"
    );
}

#[test]
fn credentials_are_used_only_after_the_rate_limit() {
    assert_eq!(
        latest_release_url("http://127.0.0.1:1"),
        "http://127.0.0.1:1/repos/Ziiilk/gprox/releases/latest"
    );
    assert!(lookup_step(403, false) == LookupStep::UseCredentials);
    assert!(lookup_step(429, false) == LookupStep::UseCredentials);
    assert!(lookup_step(403, true) == LookupStep::Refused);
    assert!(lookup_step(404, false) == LookupStep::NoRelease);
    assert!(lookup_step(404, true) == LookupStep::NoRelease);
    assert!(lookup_step(401, false) == LookupStep::Refused);
    assert!(lookup_step(599, true) == LookupStep::Refused);
    assert!(lookup_step(200, false) == LookupStep::ReadRelease);
    assert!(lookup_step(600, false) == LookupStep::ReadRelease);
}

#[test]
fn tokens_are_trimmed_text() {
    assert_eq!(read_token(true, b" gho_x \r\n".to_vec()).ok().unwrap(), "gho_x");
    assert_eq!(
        failure(read_token(false, b"gho_x".to_vec())),
        "GitHub CLI has no usable github.com login"
    );
    assert_eq!(
        failure(read_token(true, b" \n".to_vec())),
        "GitHub CLI returned an empty token"
    );
    assert!(failure(read_token(true, vec![0xc3])).contains("utf-8"));
}

#[test]
fn bytes_must_match_their_checksum() {
    let expected = "ba7816bf8f01cfea414140de5dae2223b00361a396177a9cb410ff61f20015ad";
    let mut download = Download::begin(Some(3)).ok().unwrap();
    assert!(download.receive(b"a").is_ok());
    assert!(download.receive(b"bc").is_ok());
    assert!(download.finish(expected).is_ok());
    let mut download = Download::begin(None).ok().unwrap();
    assert!(download.receive(b"abd").is_ok());
    assert_eq!(
        failure(download.finish(expected)),
        "SHA256 mismatch; installed executable was not changed"
    );
    let download = Download::begin(None).ok().unwrap();
    assert!(download
        .finish("e3b0c44298fc1c149afbf4c8996fb92427ae41e4649b934ca495991b7852b855")
        .is_ok());
}

#[test]
fn archives_have_a_largest_size() {
    assert!(Download::begin(Some(MAX_ARCHIVE_SIZE)).is_ok());
    assert_eq!(
        failure(Download::begin(Some(MAX_ARCHIVE_SIZE + 1))),
        "Release archive is too large"
    );
    let piece = vec![0u8; 1024 * 1024];
    let mut download = Download::begin(None).ok().unwrap();
    for _ in 0..256 {
        assert!(download.receive(&piece).is_ok());
    }
    assert_eq!(failure(download.receive(b"x")), "Release archive is too large");
    assert!(download.receive(b"").is_ok());
}

#[test]
fn bodies_are_read_up_to_a_limit() {
    let mut body = LimitedBody::new(4);
    assert!(body.receive(b"abc").is_ok());
    assert_eq!(failure(body.receive(b"de")), "Release response exceeds size limit");
    assert!(body.receive(b"d").is_ok());
    assert_eq!(body.bytes, b"abcd");
}

#[test]
fn downloaded_program_must_be_the_version_it_claims() {
    let version = Version::new(0, 1, 1);
    assert!(verify_version(true, b"gprox 0.1.1\r\n", &version).is_ok());
    assert_eq!(
        failure(verify_version(true, b"gprox 0.1.2\n", &version)),
        "Downloaded executable version does not match release v0.1.1"
    );
    assert!(verify_version(false, b"gprox 0.1.1", &version).is_err());
    assert!(verify_version(true, b"gprox 0.1.1\xff", &version).is_err());
    assert!(check_printed_version(true, " gprox 0.1.1 ", &version).is_ok());
}

#[test]
fn installation_outcomes_name_both_errors() {
    let version = Version::new(1, 0, 0);
    assert_eq!(
        install_outcome(&version, None, None).ok().unwrap(),
        "Updated to version 1.0.0"
    );
    let error = install_outcome(&version, None, Some("busy")).err().unwrap();
    assert_eq!(error.message, "Updated to 1.0.0, but proxy restart failed: busy");
    assert!(error.cause.is_none());
    let error = install_outcome(&version, Some("denied"), None).err().unwrap();
    assert_eq!(error.message, "Executable replacement failed");
    assert_eq!(error.cause.as_deref(), Some("denied"));
    let error = install_outcome(&version, Some("denied"), Some("busy")).err().unwrap();
    assert_eq!(
        error.message,
        "Executable replacement failed: denied; proxy restart failed: busy"
    );
    assert!(error.cause.is_none());
}

#[test]
fn updates_are_for_one_platform() {
    assert!(update_supported(true).is_ok());
    assert_eq!(
        failure(update_supported(false)),
        "Release updates currently support x86_64-pc-windows-msvc only; use cargo install on this platform"
    );
}

#[test]
fn version_is_printed_as_text_or_json() {
    let info = PackageInfo {
        name: "gprox".to_owned(),
        version: "0.1.0".to_owned(),
        description: "a \"gateway\"".to_owned(),
        repository: "https://github.com/Ziiilk/gprox".to_owned(),
    };
    assert_eq!(version_line(&info, false), "gprox 0.1.0");
    let value: serde_json::Value = serde_json::from_str(&version_line(&info, true)).unwrap();
    assert_eq!(value["version"], "0.1.0");
    assert_eq!(value["repository"], "https://github.com/Ziiilk/gprox");
    assert_eq!(value["description"], "a \"gateway\"");
}
