//! Tests of the configuration, size-limit and progress pieces.
use backdrop::configuration::Environment;
use backdrop::content_length_limit::{parse_u64, ContentLengthLimit};
use backdrop::progress::{check_resource_state, VideoProgress, REDIS_TTL_EXPIRED};
use backdrop::worker::render_args;

#[test]
fn environment_names_round_trip() {
    assert_eq!(Environment::Local.as_str(), "local");
    assert_eq!(Environment::Production.as_str(), "production");
    assert!(matches!(Environment::try_from("local"), Ok(Environment::Local)));
    assert!(matches!(Environment::try_from("LOCAL"), Ok(Environment::Local)));
    assert!(matches!(
        Environment::try_from("Production"),
        Ok(Environment::Production)
    ));
    assert!(Environment::try_from("staging").is_err());
    assert!(Environment::try_from("").is_err());
}

#[test]
fn parse_u64_follows_the_decimal_grammar() {
    assert_eq!(parse_u64(b"0"), Some(0));
    assert_eq!(parse_u64(b"5242880"), Some(5242880));
    assert_eq!(parse_u64(b"+7"), Some(7));
    assert_eq!(parse_u64(b"18446744073709551615"), Some(u64::MAX));
    assert_eq!(parse_u64(b"18446744073709551616"), None);
    assert_eq!(parse_u64(b""), None);
    assert_eq!(parse_u64(b"+"), None);
    assert_eq!(parse_u64(b"12a"), None);
    assert_eq!(parse_u64(b"-1"), None);
    assert_eq!(parse_u64(b" 1"), None);
}

#[test]
fn content_length_limit_defaults_to_five_mebibytes() {
    assert_eq!(ContentLengthLimit::default().limit, 5 << 20);
}

#[test]
fn is_big_compares_the_header_against_the_limit() {
    let middleware = ContentLengthLimit { limit: 10 }.new_transform(());
    assert_eq!(middleware.is_big(Some("11")), Ok(true));
    assert_eq!(middleware.is_big(Some("10")), Ok(false));
    assert_eq!(middleware.is_big(Some("+3")), Ok(false));
    assert_eq!(middleware.is_big(Some("ten")), Err(()));
    assert_eq!(middleware.is_big(None), Err(()));
}

#[test]
fn resource_state_reads_marker_and_ttl() {
    assert!(matches!(
        check_resource_state(&b"pending".to_vec(), 100),
        VideoProgress::Pending
    ));
    assert!(matches!(
        check_resource_state(&b"pending".to_vec(), REDIS_TTL_EXPIRED),
        VideoProgress::Pending
    ));
    let key = b"00000000-0000-0000-0000-000000000001".to_vec();
    assert!(matches!(
        check_resource_state(&key, REDIS_TTL_EXPIRED),
        VideoProgress::Gone
    ));
    match check_resource_state(&key, 120) {
        VideoProgress::Ready(k) => assert_eq!(k, key),
        _ => panic!("a live result must be ready"),
    }
}

#[test]
fn encoder_arguments_follow_the_fixed_template() {
    let args = render_args("img.jpg", "aud.mp3");
    assert_eq!(
        args,
        vec![
            "-r", "1", "-loop", "1", "-i", "img.jpg", "-i", "aud.mp3", "-shortest", "-fflags",
            "shortest", "-max_interleave_delta", "100M", "-movflags", "frag_keyframe+empty_moov",
            "-acodec", "copy", "-vcodec", "libx264", "-tune", "stillimage", "-preset",
            "ultrafast", "-f", "mp4", "-",
        ]
    );
}
