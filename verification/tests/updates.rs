use omasend::updates::{Release, Reply, UpdateError, UpdateState, builder, evaluate, evaluate_response, release_plan, reply_for_status, response_fits};
use omasend::i18n::Language;

fn release(tag: &str) -> Release {
    Release {
        draft: Some(false),
        prerelease: Some(false),
        tag_name: Some(tag.into()),
    }
}

#[test]
fn compares_semantic_versions_and_rejects_unstable_or_invalid_releases() {
    assert!(matches!(
        evaluate(&release("v0.10.0"), "0.9.0").unwrap(),
        UpdateState::Available { .. }
    ));
    for tag in ["v0.1.0", "v0.0.9", "v0.1.0+build"] {
        assert_eq!(evaluate(&release(tag), "0.1.0").unwrap(), UpdateState::Current);
    }
    assert_eq!(
        evaluate(&release("v0.2.0-beta.1"), "0.1.0").unwrap(),
        UpdateState::NoRelease
    );
    let mut draft = release("v0.2.0");
    draft.draft = Some(true);
    assert_eq!(evaluate(&draft, "0.1.0").unwrap(), UpdateState::NoRelease);
    assert!(evaluate(&release("garbage"), "0.1.0").is_err());
    let empty = Release { draft: None, prerelease: None, tag_name: None };
    assert!(evaluate(&empty, "0.1.0").is_err());
}

#[test]
fn rejects_downgrades_and_prereleases() {
    let current = "0.1.0";
    assert!(builder(current, current).is_err());
    assert!(builder("0.0.0", current).is_err());
    assert!(builder("9.0.0-beta.1", current).is_err());
    assert!(builder("../../bad", current).is_err());
}

#[test]
fn available_releases_name_their_version_and_page() {
    assert_eq!(
        evaluate(&release("v0.10.0+b7"), "0.9.0").unwrap(),
        UpdateState::Available {
            version: "v0.10.0+b7".into(),
            url: "https://github.com/huacnlee/omasend/releases/tag/v0.10.0+b7".into(),
        }
    );
    assert_eq!(
        evaluate(&release("0.1.0"), "0.1.0-rc.1").unwrap(),
        UpdateState::Available {
            version: "v0.1.0".into(),
            url: "https://github.com/huacnlee/omasend/releases/tag/0.1.0".into(),
        }
    );
    let mut unknown = release("v1.0.0");
    unknown.prerelease = None;
    assert_eq!(evaluate(&unknown, "0.1.0").unwrap_err(), UpdateError::MissingChannel);
    let mut untagged = release("v1.0.0");
    untagged.tag_name = None;
    assert_eq!(evaluate(&untagged, "0.1.0").unwrap_err(), UpdateError::MissingVersion);
    assert_eq!(evaluate(&release("v1.0.0"), "x").unwrap_err(), UpdateError::InvalidCurrent);
}

#[test]
fn release_responses_are_read_as_json() {
    assert_eq!(
        evaluate_response(br#"{"tag_name":"v0.1.0","draft":false,"prerelease":false}"#, "0.1.0").unwrap(),
        UpdateState::Current
    );
    assert_eq!(evaluate_response(b"not json", "0.1.0").unwrap_err(), UpdateError::InvalidResponse);
    assert_eq!(evaluate_response(b"{}", "0.1.0").unwrap_err(), UpdateError::MissingVisibility);
    assert_eq!(reply_for_status(404), Reply::NoRelease);
    assert_eq!(reply_for_status(403), Reply::Refused);
    assert_eq!(reply_for_status(500), Reply::Refused);
    assert_eq!(reply_for_status(200), Reply::Body);
    assert!(response_fits(1_048_000, 576));
    assert!(!response_fits(1_048_000, 577));
    assert!(!response_fits(usize::MAX, 1));
}

#[test]
fn install_plans_pick_the_asset_for_the_target() {
    let plan = release_plan("v9.0.0", "0.1.0", "x86_64-unknown-linux-gnu").unwrap();
    assert_eq!(plan.release_tag, "v9.0.0");
    assert_eq!(plan.asset_name, "omasend-9.0.0-x86_64-unknown-linux-gnu.tar.gz");
    let plan = release_plan("9.0.0", "0.1.0", "x86_64-pc-windows-msvc").unwrap();
    assert_eq!(plan.asset_name, "omasend-9.0.0-x86_64-pc-windows-msvc.zip");
    assert_eq!(
        release_plan("9.0.0", "0.1.0", "riscv64gc-unknown-linux-gnu").unwrap_err(),
        UpdateError::NoPackage("riscv64gc-unknown-linux-gnu".into())
    );
    assert_eq!(
        UpdateError::NoPackage("riscv64".into()).message(),
        "No release package for riscv64"
    );
    assert_eq!(release_plan("0.1.0", "0.1.0", "x86_64-apple-darwin").unwrap_err(), UpdateError::NotNewer);
    assert!(release_plan("0.1.0+2", "0.1.0+1", "x86_64-apple-darwin").is_ok());
    assert!(release_plan("0.1.0", "0.1.0-rc.1", "x86_64-apple-darwin").is_ok());
    assert_eq!(release_plan("v1.0.0-rc.1", "0.1.0", "x86_64-apple-darwin").unwrap_err(), UpdateError::Unstable);
}

#[test]
fn update_labels_follow_the_state() {
    let offer = UpdateState::Available { version: "v2.0.0".into(), url: String::new() };
    assert_eq!(offer.label(Language::En), "Download v2.0.0…");
    assert_eq!(offer.label(Language::ZhCn), "下载 v2.0.0…");
    assert_eq!(UpdateState::Checking.label(Language::En), "Checking for updates…");
    assert_eq!(UpdateState::Idle.label(Language::En), "");
    assert_eq!(UpdateState::default(), UpdateState::Idle);
}

#[test]
fn build_metadata_orders_installs_as_semver_does() {
    let target = "x86_64-unknown-linux-gnu";
    for (version, current) in [
        ("9.0.0+2", "9.0.0+1"),
        ("1.0.0+10", "1.0.0+9"),
        ("1.0.0+a", "1.0.0+1"),
        ("1.0.0+1.0", "1.0.0+1"),
        ("1.0.0+01", "1.0.0+1"),
        ("1.0.0+1", "1.0.0+00"),
        ("1.0.0+b", "1.0.0+a-z"),
        ("1.0.0+0", "1.0.0"),
    ] {
        assert!(release_plan(version, current, target).is_ok(), "{version} after {current}");
        assert!(
            matches!(release_plan(current, version, target), Err(UpdateError::NotNewer)),
            "{current} not after {version}"
        );
    }
    assert!(matches!(release_plan("1.0.0+7", "1.0.0+7", target), Err(UpdateError::NotNewer)));
}
