use new_iris_terminal::features::swap::{failure, first_step, next_step, Stage, Step};
use new_iris_terminal::features::update::{
    asset_marker, is_newer, old_path, parts, proxy_credentials, proxy_hint, proxy_of_environment,
    proxy_of_settings, proxy_spec, read_release, releases_url, staged_path, verdict, whole, Asset,
    Copied, Copying, Event, Platform, Published, CURRENT, REPOSITORY,
};
use new_iris_terminal::pty::session::Read;

/// The one that had already gone wrong: the updater was asking a
/// repository that is not the one this is published from.
#[test]
fn the_releases_url_follows_the_repository() {
    let url = releases_url(REPOSITORY).expect("a GitHub repository");
    assert!(
        url.starts_with("https://api.github.com/repos/"),
        "unexpected: {url}"
    );
    assert!(url.ends_with("/releases/latest"), "unexpected: {url}");
    // Whatever `Cargo.toml` says, it has to be what the URL asks for.
    let slug = REPOSITORY.trim_end_matches('/').split("github.com/").nth(1);
    assert_eq!(
        url,
        format!(
            "https://api.github.com/repos/{}/releases/latest",
            slug.expect("a github.com URL")
        )
    );
}

#[test]
fn a_later_version_is_newer() {
    assert!(is_newer("0.2.0", "0.1.0"));
    assert!(is_newer("0.1.1", "0.1.0"));
    assert!(is_newer("1.0.0", "0.9.9"));
    assert!(is_newer("v0.2.0", "0.1.0"), "the tag's v must not matter");
}

/// The check runs at every start, so "the same version" has to be the
/// quiet case rather than an update offered forever.
#[test]
fn the_same_version_is_not_newer() {
    assert!(!is_newer("0.1.0", "0.1.0"));
    assert!(!is_newer("v0.1.0", "0.1.0"));
    assert!(!is_newer("0.1.0", "0.2.0"));
    assert!(!is_newer("0.1", "0.1.0"), "a missing number is a zero");
}

/// A tag nobody can parse must not read as an update: it would offer a
/// download on every start and never stop.
#[test]
fn nonsense_is_not_newer() {
    assert!(!is_newer("", "0.1.0"));
    assert!(!is_newer("latest", "0.1.0"));
    assert!(!is_newer("not.a.version", "0.1.0"));
}

#[test]
fn a_release_tag_is_read_as_numbers() {
    assert_eq!(parts("v1.2.3"), vec![1, 2, 3]);
    // A pre-release suffix reduces to the version it is a candidate for,
    // which is what the comparison above is documented to do with one.
    assert_eq!(parts("0.1.0-rc1"), vec![0, 1, 0]);
    assert_eq!(parts("2024.10"), vec![2024, 10]);
}

/// The proxy spec, and the two characters a real password is likely to
/// hold. ureq splits at the last `@` and the first `:`, so both survive -
/// and this is the test that says so, because getting it wrong would send
/// a truncated password to the proxy and report a plain `407`.
#[test]
fn proxy_credentials_survive_the_characters_passwords_have_in_them() {
    assert_eq!(proxy_spec("host:3128", None), "host:3128");

    let spec = proxy_spec(" host:3128 ", Some(("someone".into(), "p@ss:w0rd".into())));
    assert_eq!(spec, "someone:p@ss:w0rd@host:3128");
    let parsed = ureq::Proxy::new(&spec).expect("ureq should accept this");
    // Reading the parsed fields back is the only way to be sure ureq took
    // it the way it was meant: what reaches the proxy is built from these.
    assert!(format!("{parsed:?}").contains("p@ss:w0rd"));
}

/// The staged download and the file the running build is parked in have to
/// be beside the executable, or the rename that swaps them cannot work.
#[test]
fn the_swap_happens_in_one_directory() {
    let exe = "C:/apps/new-iris-terminal.exe";
    let parent = |path: &str| path.rsplit_once('/').map(|(dir, _)| dir.to_string());
    assert_eq!(parent(&staged_path(exe)), parent(exe));
    assert_eq!(parent(&old_path(exe)), parent(exe));
    assert_ne!(staged_path(exe), old_path(exe));
    assert_ne!(staged_path(exe), exe);
}

/// This build's own version must be one the comparison understands, or
/// every release would look older than it.
#[test]
fn this_build_has_a_readable_version() {
    assert!(!parts(CURRENT).is_empty(), "unreadable version: {CURRENT}");
    assert!(is_newer("999.0.0", CURRENT));
}

#[test]
fn only_an_owner_and_a_name_make_a_releases_url() {
    let url = Some("https://api.github.com/repos/me/it/releases/latest".to_string());
    assert_eq!(releases_url("https://github.com/me/it.git/"), url);
    assert_eq!(releases_url("https://github.com/me/it.git"), url);
    assert_eq!(releases_url("https://github.com/me/it/"), url);
    assert_eq!(releases_url("https://github.com/me/it/tree/main"), url);
    assert_eq!(releases_url("https://github.com/me"), None);
    assert_eq!(releases_url("https://example.com/me/it"), None);
}

fn asset(name: &str, url: Option<&str>, size: Option<u64>) -> Asset {
    Asset {
        name: Some(name.to_string()),
        url: url.map(str::to_string),
        size,
    }
}

#[test]
fn a_release_is_reduced_to_the_build_for_this_platform() {
    let published = Published {
        tag: Some("v0.2.0".into()),
        assets: vec![
            asset("notes.txt", Some("https://a"), Some(1)),
            asset("app.exe", None, Some(2)),
            asset("app-2.exe", Some("https://b"), None),
        ],
        notes: Some("  better \n".into()),
    };
    let release = match read_release(&published, asset_marker(Platform::Windows)) {
        Ok(release) => release,
        Err(e) => panic!("{}", e.message()),
    };
    assert_eq!(release.version, "0.2.0");
    assert_eq!(release.download, "https://b");
    assert_eq!(release.size, 0);
    assert_eq!(release.notes, "better");

    match read_release(&published, asset_marker(Platform::MacOs)) {
        Err(e) => assert_eq!(e.message(), "release 0.2.0 has no build for this platform"),
        Ok(_) => panic!("there is none"),
    }
    let untagged = Published {
        tag: None,
        assets: Vec::new(),
        notes: None,
    };
    match read_release(&untagged, "x") {
        Err(e) => assert_eq!(e.message(), "the release has no tag"),
        Ok(_) => panic!("there is none"),
    }

    assert!(matches!(verdict(Ok(release.clone()), "0.1.0"), Event::Available(_)));
    assert!(matches!(verdict(Ok(release), "0.2.0"), Event::UpToDate));
    assert!(matches!(verdict(Err("no".into()), "0.2.0"), Event::Failed(_)));
}

#[test]
fn a_download_too_small_to_be_a_build_is_refused() {
    assert_eq!(whole(1_000_000), Ok(1_000_000));
    assert_eq!(
        whole(999_999),
        Err("the download stopped after 999999 bytes".to_string())
    );
}

#[test]
fn the_proxy_is_the_first_setting_that_says_anything() {
    let set = |s: &str| Some(s.to_string());
    assert_eq!(
        proxy_of_environment(&[None, set("  "), set(" a:1 "), set("b:2")]),
        set("a:1")
    );
    assert_eq!(proxy_of_environment(&[None]), None);
    assert_eq!(proxy_of_settings("host:3128"), set("host:3128"));
    assert_eq!(proxy_of_settings("http=a:1; https=b:2"), set("b:2"));
    assert_eq!(proxy_of_settings("ftp=c:3;http=a:1"), set("a:1"));
    assert_eq!(proxy_of_settings("ftp=c:3"), None);
}

#[test]
fn a_refusing_proxy_is_explained() {
    assert!(proxy_hint(Some("p:1".into()), "").starts_with("p:1 wants credentials"));
    assert!(proxy_hint(None, "me").starts_with("the proxy rejected the credentials for me."));
    assert_eq!(proxy_credentials("  ", Some("x".into())), None);
    assert_eq!(proxy_credentials("me", None), None);
    assert_eq!(
        proxy_credentials(" me ", Some("x".into())),
        Some(("me".to_string(), "x".to_string()))
    );
}

/// Runs a copy of these chunks: what arrived, how far it had got after each, and
/// the total.
fn copy(source: &[u8]) -> (Vec<u8>, Vec<u64>, u64) {
    let mut copying = Copying::new();
    let mut out: Vec<u8> = Vec::new();
    let mut progress = Vec::new();
    let mut chunks = source.chunks(64 * 1024);
    loop {
        let chunk = chunks.next().unwrap_or_default().to_vec();
        match copying.take(Read::Bytes(chunk)) {
            Copied::Write(bytes) => {
                out.extend_from_slice(&bytes);
                progress.push(copying.total);
            }
            _ => return (out, progress, copying.total),
        }
    }
}

/// The copy has to report as it goes, not once at the end: what it feeds is a
/// progress bar, and a transfer that only reports when it finishes is exactly
/// the one nobody could tell from a hung download.
#[test]
fn a_download_says_how_far_it_has_got_while_it_is_going() {
    // Two buffers' worth and a bit, so there is more than one report.
    let source = vec![7_u8; 64 * 1024 * 2 + 11];
    let (out, progress, copied) = copy(&source);

    assert_eq!(copied, source.len() as u64);
    assert_eq!(out, source, "and every byte has to arrive");
    assert_eq!(progress.len(), 3);
    assert_eq!(
        progress.last(),
        Some(&(source.len() as u64)),
        "the last report is the total"
    );
}

/// An empty body is a failed download, not a file: it must report zero
/// rather than succeeding at nothing.
#[test]
fn an_empty_body_copies_nothing() {
    let (out, progress, copied) = copy(&[]);
    assert_eq!(copied, 0);
    assert!(out.is_empty() && progress.is_empty());
    let mut copying = Copying::new();
    assert!(matches!(copying.take(Read::Interrupted), Copied::Again));
    assert!(matches!(copying.take(Read::Failed), Copied::Failed));
}

/// Runs a swap whose forward steps go as told, and reports what it ended in.
fn swap(outcomes: &[bool]) -> Step {
    let mut step = first_step();
    for &well in outcomes {
        step = next_step(step, well);
    }
    step
}

#[test]
fn a_swap_that_fails_goes_back_the_way_it_came() {
    assert_eq!(swap(&[true, true, true]), Step::Done);
    assert_eq!(swap(&[false]), Step::Failed(Stage::MovingAside));
    assert_eq!(swap(&[true, false]), Step::PutBack(Stage::PuttingInPlace));
    assert_eq!(swap(&[true, true, false]), Step::TakeOut);
    assert_eq!(
        swap(&[true, true, false, true, true]),
        Step::Failed(Stage::Starting)
    );
    assert_eq!(failure(Stage::MovingAside, "x"), "moving x aside");
}

/// A suffix says nothing about the order of two versions, whichever side it is
/// on and however many numbers it holds.
#[test]
fn a_suffix_is_not_compared() {
    assert!(!is_newer("v1.2.3-rc.1", "1.2.3"));
    assert!(!is_newer("1.2.3", "v1.2.3-rc.1"));
    assert!(!is_newer("1.2.3+build.7", "1.2.3"));
    assert!(!is_newer("1.2.3", "1.2.3+build.7"));
    assert!(is_newer("1.2.4-rc1", "1.2.3"));
    assert_eq!(parts("v1.2.3-rc.1"), vec![1, 2, 3]);
}
