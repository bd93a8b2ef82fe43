use graders_relay::codec::{decode, encode, JobContext};
use graders_relay::pathguard::is_acceptable_path_name;

#[test]
fn test_is_acceptable_path_name() {
    assert!(is_acceptable_path_name("/zips/foo"));
    assert!(!is_acceptable_path_name("zips/foo"));
    assert!(!is_acceptable_path_name("foo/bar"));
    assert!(!is_acceptable_path_name("/zips/../foo"));
}

#[test]
fn path_guard_more_traversals() {
    assert!(is_acceptable_path_name("/zips/sub/file.zip"));
    assert!(is_acceptable_path_name("/zips"));
    assert!(is_acceptable_path_name("//zips/foo"));
    assert!(is_acceptable_path_name("/zips/./foo"));
    assert!(is_acceptable_path_name("/zips/..."));
    assert!(!is_acceptable_path_name(""));
    assert!(!is_acceptable_path_name("/"));
    assert!(!is_acceptable_path_name("/other/foo"));
    assert!(!is_acceptable_path_name("/zips/a/../b"));
    assert!(!is_acceptable_path_name("/zips/../../etc/passwd"));
    assert!(!is_acceptable_path_name("/../zips/foo"));
}

fn sample_context() -> JobContext {
    JobContext {
        project: String::from("group/lab1"),
        branch: String::from("main"),
        commit: String::from("0a1b2c3d"),
        zip_path: String::from("/tmp/zips/lab1-42.zip"),
    }
}

#[test]
fn token_round_trip() {
    let ctx = sample_context();
    let token = encode(&ctx);
    let back = decode(&token).expect("a minted token must decode");
    assert_eq!(back.project, ctx.project);
    assert_eq!(back.branch, ctx.branch);
    assert_eq!(back.commit, ctx.commit);
    assert_eq!(back.zip_path, ctx.zip_path);
}

#[test]
fn token_round_trip_empty_fields() {
    let ctx = JobContext {
        project: String::new(),
        branch: String::new(),
        commit: String::new(),
        zip_path: String::new(),
    };
    let token = encode(&ctx);
    assert_eq!(token, "0:0:0:0:");
    let back = decode(&token).expect("a minted token must decode");
    assert_eq!(back.project, "");
    assert_eq!(back.zip_path, "");
}

#[test]
fn token_shape_is_length_prefixed() {
    let ctx = sample_context();
    let token = encode(&ctx);
    assert_eq!(token, "10:group/lab14:main8:0a1b2c3d21:/tmp/zips/lab1-42.zip");
}

#[test]
fn arbitrary_strings_do_not_decode() {
    assert!(decode("").is_err());
    assert!(decode("hello").is_err());
    assert!(decode("5:ab").is_err());
    assert!(decode("2:ab").is_err());
    assert!(decode("999999999999999999999999:x").is_err());
    // near-tokens with a leading zero in a length prefix were never minted
    assert!(decode("00:0:0:0:").is_err());
    assert!(decode("01:a0:0:0:").is_err());
    // trailing garbage after four well-formed fields is also an error
    let mut token = encode(&sample_context());
    token.push('x');
    assert!(decode(&token).is_err());
}
