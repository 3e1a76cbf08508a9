use wpe::record::Data;

fn sample() -> Data {
    Data::new(
        "https://api.example.com/v1".to_string(),
        "user-1".to_string(),
        "s3cr=t pass".to_string(),
    )
}

#[test]
fn record_text_has_one_line_per_field() {
    let t = sample().to_text();
    assert_eq!(t, "api=https://api.example.com/v1\nuser=user-1\npassword=s3cr=t pass\n");
}

#[test]
fn record_reads_back_unchanged() {
    let t = sample().to_text();
    let d = Data::from_text(&t).unwrap();
    assert_eq!(d.wpengine_api, "https://api.example.com/v1");
    assert_eq!(d.wpengine_user_id, "user-1");
    assert_eq!(d.wpengine_password, "s3cr=t pass");
}

#[test]
fn record_with_empty_fields_reads_back() {
    let d = Data::new(String::new(), String::new(), String::new());
    let t = d.to_text();
    assert_eq!(t, "api=\nuser=\npassword=\n");
    let back = Data::from_text(&t).unwrap();
    assert_eq!(back.wpengine_api, "");
    assert_eq!(back.wpengine_user_id, "");
    assert_eq!(back.wpengine_password, "");
}

#[test]
fn line_breaks_and_backslashes_are_escaped_and_read_back() {
    let d = Data::new("a\\b".to_string(), "b\nc".to_string(), "\\n\n".to_string());
    let t = d.to_text();
    assert_eq!(t, "api=a\\\\b\nuser=b\\nc\npassword=\\\\n\\n\n");
    let back = Data::from_text(&t).unwrap();
    assert_eq!(back.wpengine_api, "a\\b");
    assert_eq!(back.wpengine_user_id, "b\nc");
    assert_eq!(back.wpengine_password, "\\n\n");
}

#[test]
fn bad_escapes_hold_no_record() {
    assert!(Data::from_text("api=x\\\nuser=y\npassword=z\n").is_none());
    assert!(Data::from_text("api=x\\q\nuser=y\npassword=z\n").is_none());
}

#[test]
fn malformed_texts_hold_no_record() {
    assert!(Data::from_text("").is_none());
    assert!(Data::from_text("api=x\nuser=y\n").is_none());
    assert!(Data::from_text("api=x\nuser=y\npassword=z").is_none());
    assert!(Data::from_text("api=x\nuser=y\npassword=z\nextra").is_none());
    assert!(Data::from_text("user=y\napi=x\npassword=z\n").is_none());
    assert!(Data::from_text("api=x\nuser=y\npassword=z\n\n").is_none());
}

#[test]
fn non_ascii_values_read_back() {
    let d = Data::new("https://ex.é/".to_string(), "ünï".to_string(), "π≈3".to_string());
    let t = d.to_text();
    let back = Data::from_text(&t).unwrap();
    assert_eq!(back.wpengine_api, "https://ex.é/");
    assert_eq!(back.wpengine_user_id, "ünï");
    assert_eq!(back.wpengine_password, "π≈3");
}
