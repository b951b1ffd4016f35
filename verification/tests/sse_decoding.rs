use rust_json_client::{process_sse_byte_lines, HttpClientError, SseDecoder};

fn decode_all(chunks: &[&[u8]]) -> (Vec<Vec<u8>>, Result<(), String>) {
    let mut decoder = SseDecoder::new(1 << 20);
    for chunk in chunks {
        match decoder.on_chunk(chunk) {
            Ok(true) => return (decoder.payloads().clone(), Ok(())),
            Ok(false) => {}
            Err(e) => return (decoder.payloads().clone(), Err(format!("{e:?}"))),
        }
    }
    let end = decoder.finish();
    (decoder.payloads().clone(), end.map_err(|e| format!("{e:?}")))
}

#[test]
fn collects_data_lines_until_done() {
    let body = b"data: {\"id\":1}\n\ndata: {\"id\":2}\n\ndata: [DONE]\n\n";
    let (payloads, end) = decode_all(&[body]);
    assert_eq!(payloads, vec![b"{\"id\":1}".to_vec(), b"{\"id\":2}".to_vec()]);
    assert!(end.is_ok());
}

#[test]
fn immediate_done_gives_no_payloads() {
    let (payloads, end) = decode_all(&[b"data: [DONE]\n\n"]);
    assert!(payloads.is_empty());
    assert!(end.is_ok());
}

#[test]
fn comments_and_other_fields_are_ignored() {
    let body = b": comment\ndata: {\"a\":1}\n\nevent: heartbeat\n: another\nid: 7\ndata: {\"a\":2}\n\ndata: [DONE]\n\n";
    let (payloads, end) = decode_all(&[body]);
    assert_eq!(payloads, vec![b"{\"a\":1}".to_vec(), b"{\"a\":2}".to_vec()]);
    assert!(end.is_ok());
}

#[test]
fn data_prefix_without_space_and_crlf() {
    let body = b"data:{\"x\":1}\r\n\r\ndata: [DONE]\r\n\r\n";
    let (payloads, end) = decode_all(&[body]);
    assert_eq!(payloads, vec![b"{\"x\":1}".to_vec()]);
    assert!(end.is_ok());
}

#[test]
fn lines_split_across_chunks_decode_the_same() {
    let body: &[u8] = b"data: {\"id\":1,\"text\":\"za\xc5\xbc\"}\n\ndata: {\"id\":2}\n\ndata: [DONE]\n\n";
    let (whole, whole_end) = decode_all(&[body]);
    let bytes: Vec<&[u8]> = body.chunks(1).collect();
    let (split, split_end) = decode_all(&bytes);
    assert_eq!(whole, split);
    assert_eq!(whole_end, split_end);
    let (halves, _) = decode_all(&[&body[..10], &body[10..]]);
    assert_eq!(whole, halves);
}

#[test]
fn stream_without_done_is_incomplete() {
    let body = b"data: {\"id\":1}\n\ndata: {\"id\":2}\n\n";
    let (payloads, end) = decode_all(&[body]);
    assert_eq!(payloads.len(), 2);
    assert_eq!(end, Err(format!("{:?}", HttpClientError::IncompleteSseStream)));
}

#[test]
fn stream_truncated_mid_line_is_incomplete() {
    let body = b"data: {\"id\":1}\n\ndata: {\"id\":2}";
    let (payloads, end) = decode_all(&[body]);
    assert_eq!(payloads, vec![b"{\"id\":1}".to_vec(), b"{\"id\":2}".to_vec()]);
    assert!(end.is_err());
}

#[test]
fn unterminated_done_line_completes_the_stream() {
    let (payloads, end) = decode_all(&[b"data: {\"id\":1}\n\ndata: [DONE]"]);
    assert_eq!(payloads.len(), 1);
    assert!(end.is_ok());
}

#[test]
fn stream_over_the_limit_is_refused() {
    let mut decoder = SseDecoder::new(256);
    let line = format!("data: {{\"text\":\"{}\"}}\n\n", "x".repeat(200));
    assert_eq!(decoder.on_chunk(line.as_bytes()).unwrap(), false);
    match decoder.on_chunk(line.as_bytes()) {
        Err(HttpClientError::ResponseTooLarge { limit, received }) => {
            assert_eq!(limit, 256);
            assert_eq!(received, 2 * line.len());
        }
        other => panic!("expected ResponseTooLarge, got {other:?}"),
    }
    assert_eq!(decoder.received(), line.len());
}

#[test]
fn byte_lines_keep_the_unfinished_tail() {
    let mut buf = b"data: a\n: c\ndata: b\ndata: par".to_vec();
    let mut payloads = Vec::new();
    assert!(!process_sse_byte_lines(&mut buf, &mut payloads));
    assert_eq!(payloads, vec![b"a".to_vec(), b"b".to_vec()]);
    assert_eq!(buf, b"data: par".to_vec());
}

#[test]
fn byte_lines_stop_after_done() {
    let mut buf = b"data: a\ndata:  [DONE] \ndata: b\n".to_vec();
    let mut payloads = Vec::new();
    assert!(process_sse_byte_lines(&mut buf, &mut payloads));
    assert_eq!(payloads, vec![b"a".to_vec()]);
    assert_eq!(buf, b"data: b\n".to_vec());
}
