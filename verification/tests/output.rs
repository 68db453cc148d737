use turbine::output::{
    encode_body_chunk_frame, encode_headers_frame, OutputCapture, SAPI_HEADER_ADD, SAPI_HEADER_DELETE,
    SAPI_HEADER_DELETE_ALL, SAPI_HEADER_REPLACE, SAPI_HEADER_SENT_SUCCESSFULLY,
};

fn captured_with(headers: &[(&str, &str)]) -> OutputCapture {
    let mut c = OutputCapture::new();
    for (k, v) in headers {
        let line = format!("{k}: {v}");
        c.header_handler(SAPI_HEADER_ADD, Some(line.as_bytes()));
    }
    c
}

#[test]
fn clear_output_buffer_resets_all() {
    let mut c = captured_with(&[("X-Test", "val")]);
    c.ub_write(b"hello", 0);
    c.header_handler(SAPI_HEADER_REPLACE, Some(b"HTTP/1.1 404 Not Found"));
    c.clear_output_buffer();
    assert_eq!(c.output_len(), 0);
    assert!(c.take_headers().is_empty());
    assert_eq!(c.take_response_code(0), 200);
}

#[test]
fn take_output_returns_and_clears() {
    let mut c = OutputCapture::new();
    c.clear_output_buffer();
    c.ub_write(b"test output", 0);
    let output = c.take_output();
    assert_eq!(output, b"test output");
    assert_eq!(c.output_len(), 0);
}

#[test]
fn take_output_empty() {
    let mut c = OutputCapture::new();
    assert!(c.take_output().is_empty());
}

#[test]
fn take_headers_returns_and_clears() {
    let mut c = captured_with(&[("Content-Type", "text/html"), ("X-Powered-By", "Turbine")]);
    let headers = c.take_headers();
    assert_eq!(headers.len(), 2);
    assert_eq!(headers[0].0, "Content-Type");
    assert_eq!(headers[1].0, "X-Powered-By");
    assert!(c.take_headers().is_empty());
}

#[test]
fn take_headers_empty() {
    let mut c = OutputCapture::new();
    assert!(c.take_headers().is_empty());
}

#[test]
fn take_response_code_default() {
    let mut c = OutputCapture::new();
    assert_eq!(c.take_response_code(0), 200);
}

#[test]
fn take_response_code_custom() {
    let mut c = OutputCapture::new();
    c.header_handler(SAPI_HEADER_REPLACE, Some(b"HTTP/1.1 302 Found"));
    assert_eq!(c.take_response_code(0), 302);
    // Back to 200 after the take.
    assert_eq!(c.take_response_code(0), 200);
    // PHP's own code is used when none was captured.
    assert_eq!(c.take_response_code(201), 201);
}

#[test]
fn output_len_tracks_buffer_size() {
    let mut c = OutputCapture::new();
    assert_eq!(c.output_len(), 0);
    c.ub_write(b"12345", 0);
    assert_eq!(c.output_len(), 5);
    c.ub_write(b"67890", 0);
    assert_eq!(c.output_len(), 10);
}

#[test]
fn ub_write_captures_output() {
    let mut c = OutputCapture::new();
    c.ub_write(b"Hello from PHP!", 0);
    assert_eq!(c.take_output(), b"Hello from PHP!");
}

#[test]
fn ub_write_multiple_calls_append() {
    let mut c = OutputCapture::new();
    c.ub_write(b"Hello ", 0);
    c.ub_write(b"World", 0);
    assert_eq!(c.take_output(), b"Hello World");
}

#[test]
fn ub_write_null_pointer_safe() {
    let mut c = OutputCapture::new();
    let (n, frames) = c.ub_write(&[], 0);
    assert_eq!(n, 0);
    assert!(frames.is_empty());
    assert_eq!(c.output_len(), 0);
}

#[test]
fn ub_write_zero_length_safe() {
    let mut c = OutputCapture::new();
    let data = b"data";
    let (n, _) = c.ub_write(&data[..0], 0);
    assert_eq!(n, 0);
    assert_eq!(c.output_len(), 0);
}

#[test]
fn ub_write_returns_length() {
    let mut c = OutputCapture::new();
    assert_eq!(c.ub_write(b"test", 0).0, 4);
}

#[test]
fn ub_write_binary_data() {
    let mut c = OutputCapture::new();
    let data: Vec<u8> = (0..=255).collect();
    c.ub_write(&data, 0);
    let output = c.take_output();
    assert_eq!(output.len(), 256);
    assert_eq!(output[0], 0);
    assert_eq!(output[255], 255);
}

#[test]
fn header_handler_captures_header() {
    let mut c = OutputCapture::new();
    c.header_handler(SAPI_HEADER_REPLACE, Some(b"Content-Type: text/html"));
    let headers = c.take_headers();
    assert_eq!(headers.len(), 1);
    assert_eq!(headers[0].0, "Content-Type");
    assert_eq!(headers[0].1, "text/html");
}

#[test]
fn header_handler_add_allows_duplicates() {
    let mut c = OutputCapture::new();
    c.header_handler(SAPI_HEADER_ADD, Some(b"Set-Cookie: a=1"));
    c.header_handler(SAPI_HEADER_ADD, Some(b"Set-Cookie: b=2"));
    let headers = c.take_headers();
    assert_eq!(headers.len(), 2);
    assert_eq!(headers[0].1, "a=1");
    assert_eq!(headers[1].1, "b=2");
}

#[test]
fn header_handler_replace_removes_previous() {
    let mut c = OutputCapture::new();
    c.header_handler(SAPI_HEADER_REPLACE, Some(b"Content-Type: text/plain"));
    c.header_handler(SAPI_HEADER_REPLACE, Some(b"Content-Type: application/json"));
    let headers = c.take_headers();
    assert_eq!(headers.len(), 1);
    assert_eq!(headers[0].1, "application/json");
}

#[test]
fn header_handler_delete_all() {
    let mut c = captured_with(&[("A", "1"), ("B", "2")]);
    c.header_handler(SAPI_HEADER_DELETE_ALL, None);
    assert!(c.take_headers().is_empty());
}

#[test]
fn header_handler_delete_specific() {
    let mut c = captured_with(&[("Content-Type", "text/html"), ("X-Custom", "value")]);
    c.header_handler(SAPI_HEADER_DELETE, Some(b"content-type"));
    let headers = c.take_headers();
    assert_eq!(headers.len(), 1);
    assert_eq!(headers[0].0, "X-Custom");
}

#[test]
fn header_handler_http_status_line() {
    let mut c = OutputCapture::new();
    c.header_handler(SAPI_HEADER_REPLACE, Some(b"HTTP/1.1 302 Found"));
    assert!(c.take_headers().is_empty());
    assert_eq!(c.take_response_code(0), 302);
}

#[test]
fn header_handler_null_safe() {
    let mut c = OutputCapture::new();
    assert_eq!(c.header_handler(SAPI_HEADER_REPLACE, None), SAPI_HEADER_SENT_SUCCESSFULLY);
    assert!(c.take_headers().is_empty());
}

// ───── further cases ─────

#[test]
fn streaming_emits_headers_frame_once() {
    let mut c = captured_with(&[("A", "b")]);
    c.start_streaming(7);
    assert!(c.is_streaming());
    let (_, first) = c.ub_write(b"xy", 0);
    let mut expected = vec![0x10, 200, 0, 1, 0, 0, 0, 1, 0, b'A', 1, 0, b'b'];
    expected.extend_from_slice(&[0x11, 2, 0, 0, 0, b'x', b'y']);
    assert_eq!(first, expected);
    let (_, second) = c.ub_write(b"z", 0);
    assert_eq!(second, vec![0x11, 1, 0, 0, 0, b'z']);
    assert!(c.flush_headers_if_needed(0).is_none());
    assert_eq!(c.finish_streaming(), 7);
    assert!(!c.is_streaming());
    assert_eq!(c.output_len(), 0);
}

#[test]
fn flush_headers_for_empty_streamed_response() {
    let mut c = OutputCapture::new();
    assert!(c.flush_headers_if_needed(0).is_none());
    c.start_streaming(3);
    let f = c.flush_headers_if_needed(204).unwrap();
    assert_eq!(f, vec![0x10, 204, 0, 0, 0, 0, 0]);
    assert!(c.flush_headers_if_needed(204).is_none());
}

#[test]
fn frame_encoders() {
    assert_eq!(encode_body_chunk_frame(b""), vec![0x11, 0, 0, 0, 0]);
    let h = vec![("K".to_string(), "é".to_string())];
    assert_eq!(encode_headers_frame(301, &h), vec![0x10, 45, 1, 1, 0, 0, 0, 1, 0, b'K', 2, 0, 0xC3, 0xA9]);
}

#[test]
fn header_without_colon_or_invalid_utf8_is_ignored() {
    let mut c = OutputCapture::new();
    c.header_handler(SAPI_HEADER_ADD, Some(b"NoColon"));
    c.header_handler(SAPI_HEADER_ADD, Some(&[0xff, b':', b'x']));
    c.header_handler(SAPI_HEADER_REPLACE, Some(b"HTTP/1.1 abc"));
    assert!(c.take_headers().is_empty());
    assert_eq!(c.take_response_code(0), 200);
}

#[test]
fn replace_ignores_ascii_case_of_names() {
    let mut c = captured_with(&[("x-a", "1"), ("X-B", "2")]);
    c.header_handler(SAPI_HEADER_REPLACE, Some(b"X-A: 3"));
    let h = c.take_headers();
    assert_eq!(h, vec![("X-B".to_string(), "2".to_string()), ("X-A".to_string(), "3".to_string())]);
}
