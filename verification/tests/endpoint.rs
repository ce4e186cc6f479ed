use base64::engine::general_purpose::URL_SAFE_NO_PAD;
use base64::Engine;
use desktop_native::ipc::client::endpoint;
use desktop_native::ipc::path;
use desktop_native::ipc::pipe_name;
use desktop_native::ipc::socket_path;
use sha2::Digest;
use std::path::PathBuf;

#[test]
fn socket_path_is_under_tmp_in_home() {
    assert_eq!(path("bitwarden", "/home/alice", false), "/home/alice/tmp/app.bitwarden");
}

#[test]
fn socket_path_matches_path_join() {
    for home in ["/home/alice", "/home/alice/", "/", "", "relative", "/a b/ü"] {
        for name in ["bitwarden", "x", "", "with space"] {
            let expected = PathBuf::from(home).join("tmp").join(format!("app.{name}"));
            assert_eq!(PathBuf::from(path(name, home, false)), expected);
            assert_eq!(path(name, home, false), expected.to_str().unwrap());
        }
    }
}

#[test]
fn socket_path_adds_no_separator_after_one() {
    assert_eq!(path("bitwarden", "/", false), "/tmp/app.bitwarden");
    assert_eq!(path("bitwarden", "/home/alice/", false), "/home/alice/tmp/app.bitwarden");
}

#[test]
fn socket_path_of_empty_home_is_relative() {
    assert_eq!(path("bitwarden", "", false), "tmp/app.bitwarden");
}

#[test]
fn pipe_name_of_empty_home() {
    // SHA-256 of no bytes, in unpadded URL-safe base64.
    assert_eq!(
        path("bitwarden", "", true),
        "\\\\.\\pipe\\47DEQpj8HBSa-_TImW-5JCeuQeRkm5NMpJWZG3hSuFUapp.bitwarden"
    );
}

#[test]
fn pipe_name_hashes_the_home_directory() {
    let home = "C:\\Users\\alice";
    let hash = sha2::Sha256::digest(home.as_bytes());
    let expected = format!("\\\\.\\pipe\\{}app.{}", URL_SAFE_NO_PAD.encode(hash.as_slice()), "bitwarden");
    let got = path("bitwarden", home, true);
    assert_eq!(got, expected);
    assert_eq!(got.len(), 9 + 43 + 4 + 9);
    assert!(!got.contains(home));
}

#[test]
fn pipe_name_differs_between_users() {
    assert_ne!(path("bitwarden", "C:\\Users\\alice", true), path("bitwarden", "C:\\Users\\bob", true));
}

#[test]
fn same_inputs_give_the_same_address() {
    assert_eq!(path("bitwarden", "/home/alice", false), path("bitwarden", "/home/alice", false));
    assert_eq!(path("bitwarden", "C:\\Users\\alice", true), path("bitwarden", "C:\\Users\\alice", true));
}

#[test]
fn client_endpoint_is_the_bitwarden_channel() {
    assert_eq!(endpoint("/home/alice", false), path("bitwarden", "/home/alice", false));
    assert_eq!(endpoint("/home/alice", false), "/home/alice/tmp/app.bitwarden");
    assert_eq!(endpoint("C:\\Users\\alice", true), path("bitwarden", "C:\\Users\\alice", true));
}

#[test]
fn pipe_name_is_namespace_hash_prefix_and_name() {
    assert_eq!(pipe_name("bitwarden", "HASH"), "\\\\.\\pipe\\HASHapp.bitwarden");
    assert_eq!(pipe_name("", ""), "\\\\.\\pipe\\app.");
}

#[test]
fn socket_path_is_the_unix_address() {
    assert_eq!(socket_path("bitwarden", "/root"), "/root/tmp/app.bitwarden");
    assert_eq!(socket_path("bitwarden", "/root"), path("bitwarden", "/root", false));
}
