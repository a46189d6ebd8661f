use gulfstream::links::UrlParts;
use gulfstream::error::AppError;
use gulfstream::util::{
    check_remote_url, check_resolved_addresses, clean_filename, is_non_public_ip,
    title_from_filename, CleanupKind, CleanupPath, IpAddress,
};

#[test]
fn filename_cleanup_removes_paths_and_unsafe_characters() {
    assert_eq!(
        clean_filename("../../holiday clip.mp4", "upload", 240),
        "holiday_clip.mp4"
    );
    assert_eq!(clean_filename("..", "upload", 240), "upload");
    assert_eq!(clean_filename("movie.mp4", "upload", 5), "movie");
}

#[test]
fn filename_cleanup_trims_and_truncates() {
    assert_eq!(clean_filename("__.hidden.__", "upload", 240), "hidden");
    assert_eq!(clean_filename("a_b.mp4", "upload", 2), "a");
    assert_eq!(clean_filename("/videos/", "upload", 240), "videos");
    assert_eq!(clean_filename("été.mov", "upload", 240), "t_.mov");
    assert_eq!(clean_filename("", "fallback name", 240), "fallback_name");
}

#[test]
fn cleaning_a_clean_name_gives_it_back() {
    for (name, maximum) in [("../../holiday clip.mp4", 240), ("__.hidden.__", 240), ("movie.mp4", 5), ("été.mov", 3)] {
        let once = clean_filename(name, "upload", maximum);
        assert_eq!(clean_filename(&once, "other", maximum), once);
    }
}

#[test]
fn titles_come_from_file_stems() {
    assert_eq!(title_from_filename("holiday_clip-final.mp4"), "holiday clip final");
    assert_eq!(title_from_filename(".bashrc"), ".bashrc");
    assert_eq!(title_from_filename("archive.tar.gz"), "archive.tar");
    assert_eq!(title_from_filename("dir/ _name_ .mp4"), "name");
}

#[test]
fn private_and_special_addresses_are_rejected() {
    assert!(is_non_public_ip(&IpAddress::V4([127, 0, 0, 1])));
    assert!(is_non_public_ip(&IpAddress::V4([10, 1, 2, 3])));
    assert!(is_non_public_ip(&IpAddress::V6([0, 0, 0, 0, 0, 0, 0, 1])));
    assert!(!is_non_public_ip(&IpAddress::V4([1, 1, 1, 1])));
    assert!(!is_non_public_ip(&IpAddress::V6([
        0x2606, 0x4700, 0x4700, 0, 0, 0, 0, 0x1111
    ])));
}

#[test]
fn special_address_ranges_are_recognized() {
    assert!(is_non_public_ip(&IpAddress::V4([172, 16, 0, 1])));
    assert!(!is_non_public_ip(&IpAddress::V4([172, 32, 0, 1])));
    assert!(is_non_public_ip(&IpAddress::V4([192, 168, 1, 1])));
    assert!(is_non_public_ip(&IpAddress::V4([169, 254, 1, 1])));
    assert!(is_non_public_ip(&IpAddress::V4([255, 255, 255, 255])));
    assert!(is_non_public_ip(&IpAddress::V4([198, 51, 100, 7])));
    assert!(is_non_public_ip(&IpAddress::V4([224, 0, 0, 1])));
    assert!(is_non_public_ip(&IpAddress::V4([0, 1, 2, 3])));
    assert!(is_non_public_ip(&IpAddress::V6([0xfd00, 0, 0, 0, 0, 0, 0, 1])));
    assert!(is_non_public_ip(&IpAddress::V6([0xfe80, 0, 0, 0, 0, 0, 0, 1])));
    assert!(is_non_public_ip(&IpAddress::V6([0xff02, 0, 0, 0, 0, 0, 0, 1])));
    assert!(is_non_public_ip(&IpAddress::V6([0, 0, 0, 0, 0, 0xffff, 0x0a00, 0x0001])));
    assert!(!is_non_public_ip(&IpAddress::V6([0, 0, 0, 0, 0, 0xffff, 0x0101, 0x0101])));
}

fn url(scheme: &str, user: &str, host: Option<&str>, port: Option<u16>) -> UrlParts {
    UrlParts {
        scheme: scheme.to_owned(),
        username: user.to_owned(),
        has_password: false,
        host: host.map(str::to_owned),
        port,
        last_segment: None,
        text: String::new(),
    }
}

fn message(error: AppError) -> String {
    match error {
        AppError::RemoteRejected(message) => message,
        other => panic!("unexpected error {other:?}"),
    }
}

#[test]
fn remote_urls_are_checked_before_resolution() {
    let ok = check_remote_url(&url("https", "", Some("example.com"), Some(443)), false);
    assert_eq!(ok.expect("accepted"), ("example.com".to_owned(), 443));
    let ftp = check_remote_url(&url("ftp", "", Some("example.com"), Some(21)), false);
    assert_eq!(message(ftp.unwrap_err()), "only HTTP and HTTPS URLs are allowed");
    let user = check_remote_url(&url("http", "me", Some("example.com"), Some(80)), false);
    assert_eq!(message(user.unwrap_err()), "URLs containing credentials are not allowed");
    let local = check_remote_url(&url("http", "", Some("LocalHost"), Some(80)), false);
    assert_eq!(message(local.unwrap_err()), "localhost is not allowed");
    let sub = check_remote_url(&url("http", "", Some("a.localhost"), Some(80)), true);
    assert!(sub.is_ok());
    let no_host = check_remote_url(&url("http", "", None, Some(80)), false);
    assert_eq!(message(no_host.unwrap_err()), "URL has no host");
}

#[test]
fn resolved_addresses_must_be_public() {
    assert_eq!(
        message(check_resolved_addresses(&vec![], false).unwrap_err()),
        "remote host did not resolve"
    );
    let mixed = vec![IpAddress::V4([1, 1, 1, 1]), IpAddress::V4([10, 0, 0, 1])];
    assert!(check_resolved_addresses(&mixed, false).is_err());
    assert!(check_resolved_addresses(&mixed, true).is_ok());
}

#[test]
fn cleanup_guards_remember_what_to_remove() {
    let mut guard = CleanupPath::file("/tmp/upload-1".to_owned());
    assert_eq!(
        guard.pending_removal(),
        Some(("/tmp/upload-1".to_owned(), CleanupKind::File))
    );
    guard.disarm();
    assert_eq!(guard.pending_removal(), None);
    let directory = CleanupPath::directory("/tmp/stage".to_owned());
    assert_eq!(
        directory.pending_removal(),
        Some(("/tmp/stage".to_owned(), CleanupKind::Directory))
    );
}
