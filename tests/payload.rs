use metrics::frame_messages::{
    default_shared_filterframe, ClientPayload, FilterAck, FilterFrame, PayloadError,
};

fn named(name: &str) -> ClientPayload {
    let mut p = ClientPayload::default();
    p.name = name.to_owned();
    p
}

#[test]
fn filter_defaults() {
    let f = FilterFrame::default();
    assert_eq!(f, FilterFrame { nc: 0x7FFFFFFF, nd: 0x7FFFFFFF, ne: 0x7FFFFFFF });
    let shared = default_shared_filterframe();
    assert_eq!(*shared.lock().unwrap(), FilterFrame::default());

    let ack = FilterAck::default();
    assert_eq!(ack.kind, "FilterAck");
    assert!(ack.success);
    assert!(ack.reason.is_none());
    assert!(ack.is_filter_ack());
    let other = FilterAck { kind: "Other".to_owned(), success: true, reason: None };
    assert!(!other.is_filter_ack());
}

#[test]
fn missing_dt_is_filled_with_now() {
    let p = named("X").validate_at("2018-03-30T07:03:08Z").unwrap();
    assert_eq!(p.name, "X");
    assert_eq!(p.DT.as_deref(), Some("2018-03-30T07:03:08Z"));
}

#[test]
fn present_dt_is_kept() {
    let mut p = named("X");
    p.DT = Some("given".to_owned());
    p.RI1 = Some(52);
    let q = p.validate_at("2018-03-30T07:03:08Z").unwrap();
    assert_eq!(q.DT.as_deref(), Some("given"));
    assert_eq!(q.RI1, Some(52));
}

#[test]
fn validate_uses_the_current_time_in_whole_seconds() {
    let p = named("X").validate().unwrap();
    let dt = p.DT.unwrap();
    assert_eq!(dt.len(), 20);
    assert!(dt.ends_with('Z'));
    assert!(!dt.contains('.'));
    assert_eq!(&dt[4..5], "-");
    assert_eq!(&dt[10..11], "T");
}

#[test]
fn allowed_bands_pass() {
    for band in [0u8, 3, 5, 40] {
        let mut p = named("NE9");
        p.RI6 = Some(band);
        assert!(p.validate_at("now").is_ok(), "band {}", band);
    }
}

#[test]
fn other_bands_are_refused() {
    for band in [1u8, 2, 4, 6, 39, 41, 255] {
        let mut p = named("NE9");
        p.RI6 = Some(band);
        assert_eq!(p.validate_at("now").unwrap_err(), PayloadError::InvalidRI6(band));
    }
    assert_eq!(ClientPayload::bad_ri6().validate_at("now").unwrap_err(), PayloadError::InvalidRI6(1));
}

#[test]
fn empty_name_is_refused() {
    assert_eq!(ClientPayload::default().validate_at("now").unwrap_err(), PayloadError::EmptyName);
    let mut p = ClientPayload::default();
    p.RI6 = Some(40);
    assert_eq!(p.validate_at("now").unwrap_err(), PayloadError::EmptyName);
}

#[test]
fn band_is_checked_before_name() {
    let mut p = ClientPayload::default();
    p.RI6 = Some(1);
    assert_eq!(p.validate_at("now").unwrap_err(), PayloadError::InvalidRI6(1));
}

#[test]
fn error_kind_names() {
    assert_eq!(PayloadError::EmptyName.kind_name(), "EmptyName");
    assert_eq!(PayloadError::InvalidRI6(1).kind_name(), "InvalidRI6");
}

#[test]
fn ri12_payload_is_valid() {
    let p = ClientPayload::test_ri12();
    assert_eq!(p.name, "NE10");
    assert_eq!(p.RI11, Some(16));
    assert!(p.validate_at("now").is_ok());
}
