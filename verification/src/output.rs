//! PHP output capture: what the SAPI output and header callbacks do with
//! what PHP writes.
//!
//! In buffered mode (the default) output bytes accumulate until the
//! request is done.  In streaming mode each write becomes a `BodyChunk`
//! frame for the response pipe, preceded by one `Headers` frame (status
//! and captured headers) before the first chunk.  Headers set by PHP's
//! `header()` are captured: a `HTTP/…` status line sets the status, a
//! replacing header drops earlier ones of the same name (ASCII letter case
//! ignored), an added header is kept beside them.  The frames are handed
//! to the caller, which writes them to the pipe.  When no header was
//! captured, the list PHP prints for `headers_list()` is read instead.
use vstd::prelude::*;
use vstd::utf8::{decode_utf8, encode_utf8, valid_utf8};

use crate::text::{
    chars_of, decode_utf8_strict, eq_ignore_ascii_case, eq_ignore_ascii_case_chars, lowercase,
    pair_views, parse_unsigned, parse_unsigned_chars, split_once_chars, split_once_spec,
    split_ws_chars, starts_with, starts_with_chars, string_of, to_lowercase_chars, trim_ws,
    trim_ws_chars, utf8_of, ws_tokens, lines_chars, lines_spec, views,
};

verus! {

/// Frame tag of a `Headers` frame.
pub const FRAME_HEADERS: u8 = 0x10;

/// Frame tag of a `BodyChunk` frame.
pub const FRAME_BODY_CHUNK: u8 = 0x11;

/// `header()` replaces headers of the same name.
pub const SAPI_HEADER_REPLACE: i32 = 0;

/// `header(…, false)` adds a header.
pub const SAPI_HEADER_ADD: i32 = 1;

/// `header_remove($name)`.
pub const SAPI_HEADER_DELETE: i32 = 2;

/// `header_remove()`.
pub const SAPI_HEADER_DELETE_ALL: i32 = 3;

/// `http_response_code()`; the status arrives through PHP's globals.
pub const SAPI_HEADER_SET_STATUS: i32 = 4;

/// What the header callback answers.
pub const SAPI_HEADER_SENT_SUCCESSFULLY: i32 = 1;

/// Little-endian bytes of a `u16`.
pub open spec fn le16(v: u16) -> Seq<u8> {
    seq![v as u8, (v >> 8u16) as u8]
}

/// Little-endian bytes of a `u32`.
pub open spec fn le32(v: u32) -> Seq<u8> {
    seq![v as u8, (v >> 8u32) as u8, (v >> 16u32) as u8, (v >> 24u32) as u8]
}

fn push_le16(out: &mut Vec<u8>, v: u16)
    ensures
        final(out)@ == old(out)@ + le16(v),
{
    out.push(v as u8);
    out.push((v >> 8u16) as u8);
    assert(out@ =~= old(out)@ + le16(v));
}

fn push_le32(out: &mut Vec<u8>, v: u32)
    ensures
        final(out)@ == old(out)@ + le32(v),
{
    out.push(v as u8);
    out.push((v >> 8u32) as u8);
    out.push((v >> 16u32) as u8);
    out.push((v >> 24u32) as u8);
    assert(out@ =~= old(out)@ + le32(v));
}

fn push_bytes(out: &mut Vec<u8>, b: &[u8])
    ensures
        final(out)@ == old(out)@ + b@,
{
    let mut i: usize = 0;
    while i < b.len()
        invariant
            i <= b@.len(),
            out@ == old(out)@ + b@.take(i as int),
        decreases b.len() - i,
    {
        out.push(b[i]);
        i = i + 1;
        assert(out@ =~= old(out)@ + b@.take(i as int));
    }
    assert(b@.take(b@.len() as int) =~= b@);
}

/// The entries of a `Headers` frame: each name and value, UTF-8, with its
/// length as a little-endian `u16` (truncated) in front.
pub open spec fn header_entries_bytes(h: Seq<(Seq<char>, Seq<char>)>) -> Seq<u8>
    decreases h.len(),
{
    if h.len() == 0 {
        seq![]
    } else {
        let n = encode_utf8(h.last().0);
        let v = encode_utf8(h.last().1);
        header_entries_bytes(h.drop_last()) + le16(n.len() as u16) + n + le16(v.len() as u16) + v
    }
}

/// A `Headers` frame: tag, status, header count (little-endian `u32`,
/// truncated), entries.
pub open spec fn headers_frame(status: u16, h: Seq<(Seq<char>, Seq<char>)>) -> Seq<u8> {
    seq![FRAME_HEADERS] + le16(status) + le32(h.len() as u32) + header_entries_bytes(h)
}

/// A `BodyChunk` frame: tag, length (little-endian `u32`, truncated),
/// bytes.
pub open spec fn body_chunk_frame(chunk: Seq<u8>) -> Seq<u8> {
    seq![FRAME_BODY_CHUNK] + le32(chunk.len() as u32) + chunk
}

/// The status a `Headers` frame carries: the captured status unless it is
/// 200, then PHP's own response code when positive (truncated to 16 bits).
pub open spec fn frame_status(code: u16, sapi_code: i32) -> u16 {
    if code != 200 {
        code
    } else if sapi_code > 0 {
        sapi_code as u16
    } else {
        code
    }
}

/// The bytes of a `Headers` frame.
pub fn encode_headers_frame(status: u16, headers: &Vec<(String, String)>) -> (r: Vec<u8>)
    ensures
        r@ == headers_frame(status, pair_views(headers@)),
{
    let mut out: Vec<u8> = vec![FRAME_HEADERS];
    push_le16(&mut out, status);
    push_le32(&mut out, headers.len() as u32);
    let ghost hs = pair_views(headers@);
    let ghost start = out@;
    let mut i: usize = 0;
    assert(hs.take(0) =~= Seq::<(Seq<char>, Seq<char>)>::empty());
    assert(start + header_entries_bytes(hs.take(0)) =~= start);
    while i < headers.len()
        invariant
            i <= headers@.len(),
            hs == pair_views(headers@),
            out@ == start + header_entries_bytes(hs.take(i as int)),
        decreases headers.len() - i,
    {
        assert(hs.take(i + 1).drop_last() =~= hs.take(i as int));
        assert(hs.take(i + 1).last() == (headers@[i as int].0@, headers@[i as int].1@));
        let nc = chars_of(headers[i].0.as_str());
        let vc = chars_of(headers[i].1.as_str());
        let n = utf8_of(nc.as_slice());
        let v = utf8_of(vc.as_slice());
        push_le16(&mut out, n.len() as u16);
        push_bytes(&mut out, n.as_slice());
        push_le16(&mut out, v.len() as u16);
        push_bytes(&mut out, v.as_slice());
        i = i + 1;
        assert(out@ =~= start + header_entries_bytes(hs.take(i as int)));
    }
    assert(hs.take(hs.len() as int) =~= hs);
    assert(out@ =~= headers_frame(status, hs));
    out
}

/// The bytes of a `BodyChunk` frame.
pub fn encode_body_chunk_frame(chunk: &[u8]) -> (r: Vec<u8>)
    ensures
        r@ == body_chunk_frame(chunk@),
{
    let mut out: Vec<u8> = vec![FRAME_BODY_CHUNK];
    push_le32(&mut out, chunk.len() as u32);
    push_bytes(&mut out, chunk);
    assert(out@ =~= body_chunk_frame(chunk@));
    out
}

/// The state of output capture for one PHP thread.
pub struct OutputCapture {
    output: Vec<u8>,
    headers: Vec<(String, String)>,
    response_code: u16,
    /// The pipe to stream frames to; negative in buffered mode.
    stream_fd: i32,
    stream_headers_sent: bool,
}

/// Output bytes, captured headers, captured status, stream pipe, and
/// whether the `Headers` frame went out.
pub struct CaptureView {
    pub output: Seq<u8>,
    pub headers: Seq<(Seq<char>, Seq<char>)>,
    pub code: u16,
    pub fd: i32,
    pub headers_sent: bool,
}

impl View for OutputCapture {
    type V = CaptureView;

    closed spec fn view(&self) -> CaptureView {
        CaptureView {
            output: self.output@,
            headers: pair_views(self.headers@),
            code: self.response_code,
            fd: self.stream_fd,
            headers_sent: self.stream_headers_sent,
        }
    }
}

/// The headers whose lower-cased name is not `name`.
pub open spec fn without_lower(h: Seq<(Seq<char>, Seq<char>)>, name: Seq<char>) -> Seq<(Seq<char>, Seq<char>)> {
    h.filter(|p: (Seq<char>, Seq<char>)| lowercase(p.0) != name)
}

/// The headers whose name is not `name` in ASCII letter case.
pub open spec fn without_ascii(h: Seq<(Seq<char>, Seq<char>)>, name: Seq<char>) -> Seq<(Seq<char>, Seq<char>)> {
    h.filter(|p: (Seq<char>, Seq<char>)| !eq_ignore_ascii_case(p.0, name))
}

/// The status a `HTTP/…` header line sets: its second whitespace token,
/// parsed as a `u16`.
pub open spec fn status_of_line(line: Seq<char>) -> Option<u16> {
    let t = ws_tokens(line);
    if t.len() >= 2 {
        match parse_unsigned(t[1], 65535) {
            Some(v) => Some(v as u16),
            None => None,
        }
    } else {
        None
    }
}

/// What a header callback does to the captured headers `h` and status
/// `code`, given the operation and the header text (`None` when there is
/// no header or it is not UTF-8).
pub open spec fn header_effect(
    h: Seq<(Seq<char>, Seq<char>)>,
    code: u16,
    op: i32,
    text: Option<Seq<char>>,
) -> (Seq<(Seq<char>, Seq<char>)>, u16) {
    if op == SAPI_HEADER_DELETE_ALL {
        (seq![], code)
    } else if op == SAPI_HEADER_DELETE {
        match text {
            Some(t) => (without_lower(h, lowercase(trim_ws(t))), code),
            None => (h, code),
        }
    } else if op == SAPI_HEADER_REPLACE || op == SAPI_HEADER_ADD {
        match text {
            Some(t) => if starts_with(t, "HTTP/"@) {
                match status_of_line(t) {
                    Some(c) => (h, c),
                    None => (h, code),
                }
            } else {
                match split_once_spec(t, ':') {
                    Some((n, v)) => {
                        let name = trim_ws(n);
                        let value = trim_ws(v);
                        if op == SAPI_HEADER_REPLACE {
                            (without_ascii(h, name).push((name, value)), code)
                        } else {
                            (h.push((name, value)), code)
                        }
                    },
                    None => (h, code),
                }
            },
            None => (h, code),
        }
    } else {
        (h, code)
    }
}

/// The characters an optional vector holds.
pub open spec fn opt_chars(o: Option<Vec<char>>) -> Option<Seq<char>> {
    match o {
        Some(v) => Some(v@),
        None => None,
    }
}

/// The header text of the callback's bytes: `None` when absent, empty or
/// not UTF-8.
pub open spec fn header_text(bytes: Option<Seq<u8>>) -> Option<Seq<char>> {
    match bytes {
        Some(b) => if b.len() > 0 && valid_utf8(b) {
            Some(decode_utf8(b))
        } else {
            None
        },
        None => None,
    }
}

impl OutputCapture {
    /// Buffered mode, nothing captured, status 200.
    pub fn new() -> (r: OutputCapture)
        ensures
            r@.output.len() == 0,
            r@.headers.len() == 0,
            r@.code == 200,
            r@.fd == -1,
            !r@.headers_sent,
    {
        let r = OutputCapture {
            output: Vec::new(),
            headers: Vec::new(),
            response_code: 200,
            stream_fd: -1,
            stream_headers_sent: false,
        };
        assert(pair_views(r.headers@) =~= Seq::<(Seq<char>, Seq<char>)>::empty());
        r
    }

    fn take_headers_frame(&mut self, sapi_code: i32) -> (r: Vec<u8>)
        ensures
            r@ == headers_frame(frame_status(old(self)@.code, sapi_code), old(self)@.headers),
            final(self)@ == (CaptureView { headers: seq![], code: 200, ..old(self)@ }),
    {
        let status = if self.response_code != 200 {
            self.response_code
        } else if sapi_code > 0 {
            sapi_code as u16
        } else {
            self.response_code
        };
        let frame = encode_headers_frame(status, &self.headers);
        self.headers = Vec::new();
        self.response_code = 200;
        assert(self@.headers =~= Seq::<(Seq<char>, Seq<char>)>::empty());
        frame
    }

    /// The output callback: PHP wrote `data`.  In buffered mode the bytes
    /// are kept; in streaming mode the answer is the frames to send: the
    /// `Headers` frame before the first chunk (its status from the captured
    /// status or PHP's `sapi_code`), then a `BodyChunk` frame.  Empty
    /// writes do nothing.  PHP is told all bytes were taken.
    pub fn ub_write(&mut self, data: &[u8], sapi_code: i32) -> (r: (usize, Vec<u8>))
        ensures
            r.0 == data@.len(),
            data@.len() == 0 ==> final(self)@ == old(self)@ && r.1@.len() == 0,
            data@.len() > 0 && old(self)@.fd < 0 ==> final(self)@ == (CaptureView {
                output: old(self)@.output + data@,
                ..old(self)@
            }) && r.1@.len() == 0,
            data@.len() > 0 && old(self)@.fd >= 0 && old(self)@.headers_sent ==> final(self)@ == old(self)@
                && r.1@ == body_chunk_frame(data@),
            data@.len() > 0 && old(self)@.fd >= 0 && !old(self)@.headers_sent ==> {
                &&& final(self)@ == (CaptureView { headers: seq![], code: 200, headers_sent: true, ..old(self)@ })
                &&& r.1@ == headers_frame(frame_status(old(self)@.code, sapi_code), old(self)@.headers)
                    + body_chunk_frame(data@)
            },
    {
        if data.len() == 0 {
            return (0, Vec::new());
        }
        if self.stream_fd >= 0 {
            let mut frames: Vec<u8> = Vec::new();
            if !self.stream_headers_sent {
                self.stream_headers_sent = true;
                frames = self.take_headers_frame(sapi_code);
            }
            let chunk = encode_body_chunk_frame(data);
            push_bytes(&mut frames, chunk.as_slice());
            (data.len(), frames)
        } else {
            push_bytes(&mut self.output, data);
            (data.len(), Vec::new())
        }
    }

    /// The header callback: applies `op` to the captured headers and
    /// status, given the header's bytes (`None` for a null header).
    pub fn header_handler(&mut self, op: i32, header: Option<&[u8]>) -> (r: i32)
        ensures
            r == SAPI_HEADER_SENT_SUCCESSFULLY,
            final(self)@ == (CaptureView {
                headers: header_effect(
                    old(self)@.headers,
                    old(self)@.code,
                    op,
                    header_text(match header { Some(b) => Some(b@), None => None }),
                ).0,
                code: header_effect(
                    old(self)@.headers,
                    old(self)@.code,
                    op,
                    header_text(match header { Some(b) => Some(b@), None => None }),
                ).1,
                ..old(self)@
            }),
    {
        let text: Option<Vec<char>> = match header {
            Some(b) => if b.len() > 0 {
                decode_utf8_strict(b)
            } else {
                None
            },
            None => None,
        };
        let ghost tv = opt_chars(text);
        assert(tv == header_text(match header { Some(b) => Some(b@), None => None }));
        if op == SAPI_HEADER_DELETE_ALL {
            self.headers = Vec::new();
            assert(self@.headers =~= Seq::<(Seq<char>, Seq<char>)>::empty());
        } else if op == SAPI_HEADER_DELETE {
            match text {
                Some(t) => {
                    let tt = trim_ws_chars(t.as_slice());
                    let name = to_lowercase_chars(tt.as_slice());
                    self.remove_lower(name.as_slice());
                },
                None => {},
            }
        } else if op == SAPI_HEADER_REPLACE || op == SAPI_HEADER_ADD {
            match text {
                Some(t) => {
                    let http = chars_of("HTTP/");
                    if starts_with_chars(t.as_slice(), http.as_slice()) {
                        let toks = split_ws_chars(t.as_slice());
                        if toks.len() >= 2 {
                            match parse_unsigned_chars(toks[1].as_slice(), 65535) {
                                Some(v) => {
                                    self.response_code = v as u16;
                                },
                                None => {},
                            }
                        }
                    } else {
                        match split_once_chars(t.as_slice(), ':') {
                            Some((n, v)) => {
                                let name = trim_ws_chars(n.as_slice());
                                let value = trim_ws_chars(v.as_slice());
                                if op == SAPI_HEADER_REPLACE {
                                    self.remove_ascii(name.as_slice());
                                }
                                let ghost before = self@.headers;
                                self.headers.push((string_of(name.as_slice()), string_of(value.as_slice())));
                                assert(self@.headers =~= before.push((name@, value@)));
                            },
                            None => {},
                        }
                    }
                },
                None => {},
            }
        }
        SAPI_HEADER_SENT_SUCCESSFULLY
    }

    fn remove_lower(&mut self, name: &[char])
        ensures
            final(self)@ == (CaptureView { headers: without_lower(old(self)@.headers, name@), ..old(self)@ }),
    {
        let mut kept: Vec<(String, String)> = Vec::new();
        let ghost hs = self@.headers;
        let mut i: usize = 0;
        reveal(Seq::filter);
        assert(hs.take(0).filter(|p: (Seq<char>, Seq<char>)| lowercase(p.0) != name@) =~= Seq::<(Seq<char>, Seq<char>)>::empty());
        while i < self.headers.len()
            invariant
                i <= self.headers@.len(),
                hs == pair_views(self.headers@),
                hs == old(self)@.headers,
                self@ == old(self)@,
                pair_views(kept@) == hs.take(i as int).filter(|p: (Seq<char>, Seq<char>)| lowercase(p.0) != name@),
            decreases self.headers.len() - i,
        {
            let k = chars_of(self.headers[i].0.as_str());
            let kl = to_lowercase_chars(k.as_slice());
            let ghost before = kept@;
            assert(hs.take(i + 1).drop_last() =~= hs.take(i as int));
            assert(hs.take(i + 1).last() == (self.headers@[i as int].0@, self.headers@[i as int].1@));
            proof {
                reveal(Seq::filter);
                assert(hs.take(i as int).push(hs.take(i + 1).last()) =~= hs.take(i + 1));
            }
            if !crate::text::chars_eq(kl.as_slice(), name) {
                kept.push((self.headers[i].0.clone(), self.headers[i].1.clone()));
                assert(pair_views(kept@) =~= pair_views(before).push(hs[i as int]));
            }
            i = i + 1;
        }
        assert(hs.take(hs.len() as int) =~= hs);
        self.headers = kept;
    }

    fn remove_ascii(&mut self, name: &[char])
        ensures
            final(self)@ == (CaptureView { headers: without_ascii(old(self)@.headers, name@), ..old(self)@ }),
    {
        let mut kept: Vec<(String, String)> = Vec::new();
        let ghost hs = self@.headers;
        let mut i: usize = 0;
        reveal(Seq::filter);
        assert(hs.take(0).filter(|p: (Seq<char>, Seq<char>)| !eq_ignore_ascii_case(p.0, name@)) =~= Seq::<(Seq<char>, Seq<char>)>::empty());
        while i < self.headers.len()
            invariant
                i <= self.headers@.len(),
                hs == pair_views(self.headers@),
                hs == old(self)@.headers,
                self@ == old(self)@,
                pair_views(kept@) == hs.take(i as int).filter(|p: (Seq<char>, Seq<char>)| !eq_ignore_ascii_case(p.0, name@)),
            decreases self.headers.len() - i,
        {
            let k = chars_of(self.headers[i].0.as_str());
            let ghost before = kept@;
            assert(hs.take(i + 1).drop_last() =~= hs.take(i as int));
            assert(hs.take(i + 1).last() == (self.headers@[i as int].0@, self.headers@[i as int].1@));
            proof {
                reveal(Seq::filter);
                assert(hs.take(i as int).push(hs.take(i + 1).last()) =~= hs.take(i + 1));
            }
            if !eq_ignore_ascii_case_chars(k.as_slice(), name) {
                kept.push((self.headers[i].0.clone(), self.headers[i].1.clone()));
                assert(pair_views(kept@) =~= pair_views(before).push(hs[i as int]));
            }
            i = i + 1;
        }
        assert(hs.take(hs.len() as int) =~= hs);
        self.headers = kept;
    }

    /// Turns streaming on: frames go to `fd` from now on; the `Headers`
    /// frame is still to be sent.
    pub fn start_streaming(&mut self, fd: i32)
        ensures
            final(self)@ == (CaptureView { fd: fd, headers_sent: false, ..old(self)@ }),
    {
        self.stream_fd = fd;
        self.stream_headers_sent = false;
    }

    /// The `Headers` frame, if streaming is on and it has not been sent
    /// yet (so that even an empty response has one).  The frame drains the
    /// captured headers and status (back to 200).
    pub fn flush_headers_if_needed(&mut self, sapi_code: i32) -> (r: Option<Vec<u8>>)
        ensures
            old(self)@.fd < 0 || old(self)@.headers_sent ==> r is None && final(self)@ == old(self)@,
            old(self)@.fd >= 0 && !old(self)@.headers_sent ==> {
                &&& r matches Some(f) && f@ == headers_frame(frame_status(old(self)@.code, sapi_code), old(self)@.headers)
                &&& final(self)@ == (CaptureView { headers: seq![], code: 200, headers_sent: true, ..old(self)@ })
            },
    {
        if self.stream_fd < 0 || self.stream_headers_sent {
            return None;
        }
        self.stream_headers_sent = true;
        Some(self.take_headers_frame(sapi_code))
    }

    /// Turns streaming off and returns the pipe it used (negative when it
    /// was off).
    pub fn finish_streaming(&mut self) -> (r: i32)
        ensures
            r == old(self)@.fd,
            final(self)@ == (CaptureView { fd: -1i32, headers_sent: false, ..old(self)@ }),
    {
        let prev = self.stream_fd;
        self.stream_fd = -1;
        self.stream_headers_sent = false;
        prev
    }

    /// Whether streaming is on.
    pub fn is_streaming(&self) -> (r: bool)
        ensures
            r == (self@.fd >= 0),
    {
        self.stream_fd >= 0
    }

    /// Clears output, headers and status, before each request.
    pub fn clear_output_buffer(&mut self)
        ensures
            final(self)@ == (CaptureView { output: seq![], headers: seq![], code: 200, ..old(self)@ }),
    {
        self.output = Vec::new();
        self.headers = Vec::new();
        self.response_code = 200;
        assert(self@.output =~= Seq::<u8>::empty());
        assert(self@.headers =~= Seq::<(Seq<char>, Seq<char>)>::empty());
    }

    /// Takes the output so far, leaving none.
    pub fn take_output(&mut self) -> (r: Vec<u8>)
        ensures
            r@ == old(self)@.output,
            final(self)@ == (CaptureView { output: seq![], ..old(self)@ }),
    {
        let mut out: Vec<u8> = Vec::new();
        std::mem::swap(&mut out, &mut self.output);
        assert(self@.output =~= Seq::<u8>::empty());
        out
    }

    /// Takes the captured headers, leaving none.
    pub fn take_headers(&mut self) -> (r: Vec<(String, String)>)
        ensures
            pair_views(r@) == old(self)@.headers,
            final(self)@ == (CaptureView { headers: seq![], ..old(self)@ }),
    {
        let mut h: Vec<(String, String)> = Vec::new();
        std::mem::swap(&mut h, &mut self.headers);
        assert(self@.headers =~= Seq::<(Seq<char>, Seq<char>)>::empty());
        h
    }

    /// Takes the response status: the captured one unless it is 200, else
    /// PHP's own `sapi_code` when it is positive and not 200 (truncated to
    /// 16 bits), else 200.  The captured status goes back to 200.
    pub fn take_response_code(&mut self, sapi_code: i32) -> (r: u16)
        ensures
            r == (if old(self)@.code != 200 {
                old(self)@.code
            } else if sapi_code > 0 && sapi_code != 200 {
                sapi_code as u16
            } else {
                200u16
            }),
            final(self)@ == (CaptureView { code: 200, ..old(self)@ }),
    {
        let captured = self.response_code;
        self.response_code = 200;
        if captured != 200 {
            captured
        } else if sapi_code > 0 && sapi_code != 200 {
            sapi_code as u16
        } else {
            captured
        }
    }

    /// Number of output bytes so far.
    pub fn output_len(&self) -> (r: usize)
        ensures
            r == self@.output.len(),
    {
        self.output.len()
    }
}

/// In buffered mode, what was written is what is taken: after clearing,
/// writing `a` then `b` leaves `a + b` to take.
pub proof fn lemma_buffered_writes_concatenate(a: Seq<u8>, b: Seq<u8>, v: CaptureView)
    requires
        v.fd < 0,
        v.output == Seq::<u8>::empty(),
    ensures
        (CaptureView { output: (CaptureView { output: v.output + a, ..v }).output + b, ..v }).output == a + b,
{
    assert(Seq::<u8>::empty() + a =~= a);
}

// ───────────────────────────── headers printed by PHP ─────────────────────────────

/// The headers among `lines` that read `name: value`, in order, name and
/// value trimmed; lines without a colon are skipped.
pub open spec fn listed_headers_of(lines: Seq<Seq<char>>) -> Seq<(Seq<char>, Seq<char>)>
    decreases lines.len(),
{
    if lines.len() == 0 {
        seq![]
    } else {
        let rest = listed_headers_of(lines.drop_last());
        match split_once_spec(lines.last(), ':') {
            Some((n, v)) => rest.push((trim_ws(n), trim_ws(v))),
            None => rest,
        }
    }
}

/// The headers in the text that PHP prints for `headers_list()`, one per
/// line; none when the text is not UTF-8.
pub open spec fn listed_headers(raw: Seq<u8>) -> Seq<(Seq<char>, Seq<char>)> {
    if valid_utf8(raw) {
        listed_headers_of(lines_spec(decode_utf8(raw)))
    } else {
        seq![]
    }
}

/// Reads the `name: value` lines PHP printed for `headers_list()`.
pub fn headers_from_list(raw: &[u8]) -> (r: Vec<(String, String)>)
    ensures
        pair_views(r@) == listed_headers(raw@),
{
    let mut out: Vec<(String, String)> = Vec::new();
    match decode_utf8_strict(raw) {
        None => {
            assert(pair_views(out@) =~= seq![]);
            out
        },
        Some(text) => {
            let lines = lines_chars(text.as_slice());
            let ghost ls = lines_spec(decode_utf8(raw@));
            let mut i: usize = 0;
            while i < lines.len()
                invariant
                    i <= lines@.len(),
                    views(lines@) == ls,
                    pair_views(out@) == listed_headers_of(ls.take(i as int)),
                decreases lines@.len() - i,
            {
                let line = &lines[i];
                assert(line@ == ls[i as int]) by { assert(views(lines@)[i as int] == lines@[i as int]@); }
                assert(ls.take(i + 1).drop_last() =~= ls.take(i as int));
                assert(ls.take(i + 1).last() == ls[i as int]);
                match split_once_chars(line.as_slice(), ':') {
                    Some((n, v)) => {
                        let name = trim_ws_chars(n.as_slice());
                        let value = trim_ws_chars(v.as_slice());
                        let ghost before = out@;
                        out.push((string_of(name.as_slice()), string_of(value.as_slice())));
                        assert(pair_views(out@) =~= pair_views(before).push((name@, value@)));
                    },
                    None => {},
                }
                i = i + 1;
            }
            assert(ls.take(lines@.len() as int) =~= ls);
            out
        },
    }
}

} // verus!
