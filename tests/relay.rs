use metrics::socket_relay::{line_length, relay_record, Backoff};

#[test]
fn records_end_with_newline_and_space() {
    let record = relay_record(b"{\"kind\":\"FilterAck\",\"success\":true}".to_vec());
    assert_eq!(record.len(), 37);
    assert_eq!(record, b"{\"kind\":\"FilterAck\",\"success\":true}\n ".to_vec());

    let record = relay_record(b"{\"Name\":\"NE9\",\"DT\":\"2018-03-30T07:03:08Z\"}".to_vec());
    assert_eq!(record.len(), 44);
    assert_eq!(&record[42..], b"\n ");
}

#[test]
fn lines_end_at_newline_or_return() {
    assert_eq!(line_length(b"{\"NC\":3}\nrest"), 8);
    assert_eq!(line_length(b"abc\r\n"), 3);
    assert_eq!(line_length(b"no end"), 6);
    assert_eq!(line_length(b""), 0);
}

#[test]
fn backoff_schedule() {
    let mut b = Backoff::new();
    let delays: Vec<u64> = (0..7).map(|_| b.next_delay()).collect();
    assert_eq!(delays, vec![1, 2, 4, 8, 10, 10, 10]);
}
