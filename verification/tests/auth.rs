use glin_sdk::GlinAuth;

#[test]
fn auth_message_has_the_fixed_wording() {
    let message = GlinAuth::auth_message("MyApp", "2024-01-02T03:04:05+00:00");
    assert_eq!(
        message,
        "Sign in to MyApp\n\nTimestamp: 2024-01-02T03:04:05+00:00\n\nThis signature will not trigger a blockchain transaction or cost any fees."
    );
}

#[test]
fn generated_auth_message_carries_a_timestamp() {
    let message = GlinAuth::generate_auth_message("MyApp");
    let head = "Sign in to MyApp\n\nTimestamp: ";
    let tail = "\n\nThis signature will not trigger a blockchain transaction or cost any fees.";
    assert!(message.starts_with(head));
    assert!(message.ends_with(tail));
    let stamp = &message[head.len()..message.len() - tail.len()];
    // An RFC 3339 instant in UTC: date, 'T', time, offset.
    assert!(stamp.len() >= 25);
    assert_eq!(&stamp[4..5], "-");
    assert_eq!(&stamp[7..8], "-");
    assert_eq!(&stamp[10..11], "T");
    assert!(stamp.ends_with("+00:00"));
    assert!(stamp[0..4].parse::<u32>().unwrap() >= 2024);
}

#[test]
fn no_signature_is_accepted() {
    assert!(!GlinAuth::verify_signature("5GrwvaEF...", "Sign in to MyApp...", "0x..."));
    assert!(!GlinAuth::verify_signature("", "", ""));
}

#[test]
fn version_is_set() {
    assert_eq!(glin_sdk::VERSION, "0.1.0");
}
