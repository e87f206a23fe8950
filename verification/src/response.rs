//! The HTTP/1 response parser.  Responses from judges and upstream proxies
//! arrive as opaque bytes; this parses the status line and the header block,
//! lower-casing header names, and hands back the body.

use vstd::prelude::*;

use crate::strutil::{dec_digits, find_byte_spec, is_digit, lower_bytes, DIGIT_ZERO};

verus! {

/// Carriage return.
pub const CR: u8 = 13;

/// Line feed.
pub const LF: u8 = 10;

/// ASCII space.
pub const SP: u8 = 32;

/// Horizontal tab.
pub const HTAB: u8 = 9;

/// ASCII colon.
pub const COLON: u8 = 58;

/// The bytes of `HTTP/1.`, which every status line must open with.
pub open spec fn http1_prefix() -> Seq<u8> {
    seq![72u8, 84u8, 84u8, 80u8, 47u8, 49u8, 46u8]
}

/// One parsed header: a lower-cased name and a value.
#[derive(Clone, Debug)]
pub struct Header {
    pub name: Vec<u8>,
    pub value: Vec<u8>,
}

/// The header list as a sequence of byte-sequence pairs.
pub open spec fn header_pairs(v: Seq<Header>) -> Seq<(Seq<u8>, Seq<u8>)> {
    Seq::new(v.len(), |i: int| (v[i].name@, v[i].value@))
}

/// First position at or after `from` where a CRLF pair starts.
pub open spec fn find_crlf_spec(s: Seq<u8>, from: int) -> Option<int>
    decreases s.len() - from,
    when 0 <= from <= s.len()
{
    if from + 2 > s.len() {
        None
    } else if s[from] == CR && s[from + 1] == LF {
        Some(from)
    } else {
        find_crlf_spec(s, from + 1)
    }
}

/// A CRLF hit lies in range and nothing before it is one.
pub proof fn lemma_find_crlf(s: Seq<u8>, from: int)
    requires
        0 <= from <= s.len(),
    ensures
        match find_crlf_spec(s, from) {
            Some(i) => from <= i && i + 2 <= s.len() && s[i] == CR && s[i + 1] == LF,
            None => true,
        },
    decreases s.len() - from,
{
    if from + 2 <= s.len() && !(s[from] == CR && s[from + 1] == LF) {
        lemma_find_crlf(s, from + 1);
    }
}

/// First CRLF at or after `from`, executable form.
pub fn find_crlf(s: &[u8], from: usize) -> (r: Option<usize>)
    requires
        from <= s@.len(),
    ensures
        match r {
            Some(i) => find_crlf_spec(s@, from as int) == Some(i as int) && from <= i && i + 2
                <= s@.len(),
            None => find_crlf_spec(s@, from as int) is None,
        },
{
    let n = s.len();
    if n < 2 || from > n - 2 {
        return None;
    }
    let mut i = from;
    while i <= n - 2
        invariant
            n == s@.len(),
            n >= 2,
            from <= i,
            i <= n,
            find_crlf_spec(s@, from as int) == find_crlf_spec(s@, i as int),
        decreases n - i,
    {
        if s[i] == CR && s[i + 1] == LF {
            return Some(i);
        }
        i = i + 1;
    }
    None
}

/// Leading spaces and tabs removed.
pub open spec fn ltrim_spaces(s: Seq<u8>) -> Seq<u8>
    decreases s.len(),
{
    if s.len() > 0 && (s[0] == SP || s[0] == HTAB) {
        ltrim_spaces(s.skip(1))
    } else {
        s
    }
}

/// One header line `Name: value`: the name is everything before the first
/// colon and must be non-empty; the value is the rest, with leading blanks
/// removed.  The returned name is lower-cased.
pub open spec fn parse_header_line_spec(line: Seq<u8>) -> Option<(Seq<u8>, Seq<u8>)> {
    match find_byte_spec(line, COLON, 0) {
        Some(c) => if c == 0 {
            None
        } else {
            Some(
                (
                    lower_bytes(line.subrange(0, c)),
                    ltrim_spaces(line.subrange(c + 1, line.len() as int)),
                ),
            )
        },
        None => None,
    }
}

/// The header block from position `from`: header lines up to and including
/// an empty line.  Yields the parsed headers and the position just past the
/// blank line, where the body starts; `None` when the block is malformed or
/// never terminated.
pub open spec fn parse_headers_spec(s: Seq<u8>, from: int) -> Option<
    (Seq<(Seq<u8>, Seq<u8>)>, int),
>
    decreases s.len() - from,
    when 0 <= from <= s.len() via parse_headers_spec_decreases
{
    match find_crlf_spec(s, from) {
        None => None,
        Some(e) => if e == from {
            Some((Seq::empty(), from + 2))
        } else {
            match parse_header_line_spec(s.subrange(from, e)) {
                None => None,
                Some(h) => match parse_headers_spec(s, e + 2) {
                    None => None,
                    Some((hs, end)) => Some((seq![h] + hs, end)),
                },
            }
        },
    }
}

#[via_fn]
proof fn parse_headers_spec_decreases(s: Seq<u8>, from: int) {
    lemma_find_crlf(s, from);
}

/// A parsed status line: version digit, status code, reason.
pub open spec fn parse_status_line_spec(line: Seq<u8>) -> Option<(u8, u16, Seq<u8>)> {
    if line.len() >= 12 && line.subrange(0, 7) == http1_prefix() && is_digit(line[7]) && line[8]
        == SP && is_digit(line[9]) && is_digit(line[10]) && is_digit(line[11]) && (line.len() == 12
        || line[12] == SP) {
        Some(
            (
                (line[7] - DIGIT_ZERO) as u8,
                ((line[9] - DIGIT_ZERO) * 100 + (line[10] - DIGIT_ZERO) * 10 + (line[11]
                    - DIGIT_ZERO)) as u16,
                if line.len() == 12 {
                    Seq::empty()
                } else {
                    line.subrange(13, line.len() as int)
                },
            ),
        )
    } else {
        None
    }
}

/// A fully parsed head: version digit, status, reason, headers, body start.
pub open spec fn parse_response_spec(data: Seq<u8>) -> Option<
    (u8, u16, Seq<u8>, Seq<(Seq<u8>, Seq<u8>)>, int),
> {
    match find_crlf_spec(data, 0) {
        None => None,
        Some(e0) => match parse_status_line_spec(data.subrange(0, e0)) {
            None => None,
            Some((v, st, rs)) => match parse_headers_spec(data, e0 + 2) {
                None => None,
                Some((hs, bstart)) => Some((v, st, rs, hs, bstart)),
            },
        },
    }
}

/// Copies `s[from..to]` into a fresh vector.
pub fn copy_range(s: &[u8], from: usize, to: usize) -> (r: Vec<u8>)
    requires
        from <= to <= s@.len(),
    ensures
        r@ == s@.subrange(from as int, to as int),
{
    let mut r: Vec<u8> = Vec::new();
    let mut i = from;
    while i < to
        invariant
            from <= i <= to <= s@.len(),
            r@ == s@.subrange(from as int, i as int),
        decreases to - i,
    {
        r.push(s[i]);
        proof {
            assert(s@.subrange(from as int, i + 1) =~= s@.subrange(from as int, i as int).push(
                s@[i as int],
            ));
        }
        i = i + 1;
    }
    r
}

/// Parses one header line lying at `s[from..to]`, executable form.
fn parse_header_line(s: &[u8], from: usize, to: usize) -> (r: Option<Header>)
    requires
        from <= to <= s@.len(),
    ensures
        match r {
            Some(h) => parse_header_line_spec(s@.subrange(from as int, to as int)) == Some(
                (h.name@, h.value@),
            ),
            None => parse_header_line_spec(s@.subrange(from as int, to as int)) is None,
        },
{
    let ghost line = s@.subrange(from as int, to as int);
    proof {
        crate::strutil::lemma_find_byte(line, COLON, 0);
    }
    let c = match find_colon(s, from, to) {
        Some(c) => c,
        None => {
            return None;
        },
    };
    if c == from {
        return None;
    }
    let name_raw = copy_range(s, from, c);
    let name = crate::strutil::to_lower_bytes(name_raw.as_slice());
    let mut v_from = c + 1;
    proof {
        assert(s@.subrange(v_from as int, to as int) =~= line.subrange(
            c - from + 1,
            line.len() as int,
        ));
    }
    while v_from < to && (s[v_from] == SP || s[v_from] == HTAB)
        invariant
            from <= c < v_from <= to <= s@.len(),
            line == s@.subrange(from as int, to as int),
            ltrim_spaces(s@.subrange(v_from as int, to as int)) == ltrim_spaces(
                line.subrange(c - from + 1, line.len() as int),
            ),
        decreases to - v_from,
    {
        proof {
            assert(s@.subrange(v_from as int, to as int).skip(1) =~= s@.subrange(
                v_from + 1,
                to as int,
            ));
        }
        v_from = v_from + 1;
    }
    let value = copy_range(s, v_from, to);
    proof {
        assert(line.subrange(0, c - from) =~= s@.subrange(from as int, c as int));
        let tail = s@.subrange(v_from as int, to as int);
        if tail.len() > 0 {
            assert(tail[0] == s@[v_from as int]);
        }
        assert(ltrim_spaces(tail) == tail);
    }
    Some(Header { name, value })
}

/// First colon in `s[from..to]`, executable form, as an absolute index.
fn find_colon(s: &[u8], from: usize, to: usize) -> (r: Option<usize>)
    requires
        from <= to <= s@.len(),
    ensures
        match r {
            Some(c) => from <= c < to && find_byte_spec(
                s@.subrange(from as int, to as int),
                COLON,
                0,
            ) == Some(c - from),
            None => find_byte_spec(s@.subrange(from as int, to as int), COLON, 0) is None,
        },
{
    let ghost line = s@.subrange(from as int, to as int);
    let mut i = from;
    while i < to
        invariant
            from <= i <= to <= s@.len(),
            line == s@.subrange(from as int, to as int),
            find_byte_spec(line, COLON, 0) == find_byte_spec(line, COLON, i - from),
        decreases to - i,
    {
        if s[i] == COLON {
            proof {
                assert(line[i - from] == s@[i as int]);
            }
            return Some(i);
        }
        proof {
            assert(line[i - from] == s@[i as int]);
        }
        i = i + 1;
    }
    None
}

/// Parses the header block starting at `from`, executable form.
pub(crate) fn parse_headers(s: &[u8], from: usize) -> (r: Option<(Vec<Header>, usize)>)
    requires
        from <= s@.len(),
    ensures
        match r {
            Some((hs, end)) => parse_headers_spec(s@, from as int) == Some(
                (header_pairs(hs@), end as int),
            ) && from + 2 <= end <= s@.len(),
            None => parse_headers_spec(s@, from as int) is None,
        },
{
    let n = s.len();
    let mut headers: Vec<Header> = Vec::new();
    let mut p = from;
    loop
        invariant
            n == s@.len(),
            from <= p <= s@.len(),
            match parse_headers_spec(s@, p as int) {
                Some((hs, end)) => parse_headers_spec(s@, from as int) == Some(
                    (header_pairs(headers@) + hs, end),
                ),
                None => parse_headers_spec(s@, from as int) is None,
            },
        decreases s@.len() - p,
    {
        proof {
            lemma_find_crlf(s@, p as int);
        }
        let e = match find_crlf(s, p) {
            Some(e) => e,
            None => {
                return None;
            },
        };
        assert(e + 2 <= n);
        if e == p {
            proof {
                assert(header_pairs(headers@) + Seq::<(Seq<u8>, Seq<u8>)>::empty() =~= header_pairs(
                    headers@,
                ));
            }
            return Some((headers, p + 2));
        }
        let h = match parse_header_line(s, p, e) {
            Some(h) => h,
            None => {
                return None;
            },
        };
        let ghost prev = headers@;
        headers.push(h);
        p = e + 2;
        proof {
            match parse_headers_spec(s@, p as int) {
                Some((hs, end)) => {
                    assert(header_pairs(headers@) + hs =~= header_pairs(prev) + (seq![
                        (headers@.last().name@, headers@.last().value@),
                    ] + hs));
                },
                None => {},
            }
        }
    }
}


/// The first value of a header with the given (lower-case) name.
pub open spec fn header_value_spec(hs: Seq<(Seq<u8>, Seq<u8>)>, key: Seq<u8>) -> Option<Seq<u8>>
    decreases hs.len(),
{
    if hs.len() == 0 {
        None
    } else if hs[0].0 == key {
        Some(hs[0].1)
    } else {
        header_value_spec(hs.drop_first(), key)
    }
}

/// Looks a header up by its lower-case name, executable form.
pub fn header_value<'a>(headers: &'a Vec<Header>, key: &[u8]) -> (r: Option<&'a Vec<u8>>)
    ensures
        match r {
            Some(v) => header_value_spec(header_pairs(headers@), key@) == Some(v@),
            None => header_value_spec(header_pairs(headers@), key@) is None,
        },
{
    let mut i: usize = 0;
    proof {
        assert(header_pairs(headers@).skip(0) =~= header_pairs(headers@));
    }
    while i < headers.len()
        invariant
            i <= headers@.len(),
            header_value_spec(header_pairs(headers@), key@) == header_value_spec(
                header_pairs(headers@).skip(i as int),
                key@,
            ),
        decreases headers@.len() - i,
    {
        proof {
            assert(header_pairs(headers@).skip(i as int)[0] == header_pairs(headers@)[i as int]);
        }
        if crate::strutil::bytes_eq(headers[i].name.as_slice(), key) {
            return Some(&headers[i].value);
        }
        proof {
            assert(header_pairs(headers@).skip(i as int).drop_first() =~= header_pairs(
                headers@,
            ).skip(i + 1));
        }
        i = i + 1;
    }
    proof {
        assert(header_pairs(headers@).skip(i as int).len() == 0);
    }
    None
}

/// The `content-encoding` header name.
pub open spec fn ce_key() -> Seq<u8> {
    vstd::utf8::encode_utf8("content-encoding"@)
}

/// Whether the headers announce a compressed body.
pub open spec fn wants_decode(hs: Seq<(Seq<u8>, Seq<u8>)>) -> bool {
    match header_value_spec(hs, ce_key()) {
        Some(v) => crate::strutil::contains_seq(
            lower_bytes(v),
            vstd::utf8::encode_utf8("gzip"@),
        ) || crate::strutil::contains_seq(lower_bytes(v), vstd::utf8::encode_utf8("deflate"@)),
        None => false,
    }
}

/// What decompressing a byte buffer yields, when it succeeds.  The result
/// is a function of the bytes alone.
pub uninterp spec fn inflate_of(data: Seq<u8>) -> Option<Seq<u8>>;

/// Relies on autocompress::autodetect_buf_reader and its reader: the
/// decompressed form of a byte buffer, or a failure, determined by the
/// bytes alone.
#[verifier::external_body]
fn decompress(data: &[u8]) -> (r: Option<Vec<u8>>)
    ensures
        match r {
            Some(v) => inflate_of(data@) == Some(v@),
            None => inflate_of(data@) is None,
        },
{
    let mut out = Vec::new();
    match autocompress::autodetect_buf_reader(data) {
        Ok(mut reader) => match std::io::Read::read_to_end(&mut reader, &mut out) {
            Ok(_) => Some(out),
            Err(_) => None,
        },
        Err(_) => None,
    }
}

/// The body a parsed response carries: the bytes after the header block,
/// decompressed when the headers announce a compressed body and the
/// decompression succeeds, the raw bytes otherwise.
pub open spec fn body_of(data: Seq<u8>, hs: Seq<(Seq<u8>, Seq<u8>)>, bstart: int) -> Seq<u8>
    recommends
        0 <= bstart <= data.len(),
{
    let raw_body = data.subrange(bstart, data.len() as int);
    if wants_decode(hs) {
        match inflate_of(raw_body) {
            Some(d) => d,
            None => raw_body,
        }
    } else {
        raw_body
    }
}

/// A parsed HTTP/1 response.
#[derive(Clone, Debug)]
pub struct Response {
    pub version: Option<u8>,
    pub status_code: Option<u16>,
    pub reason: Option<Vec<u8>>,
    pub headers: Vec<Header>,
    pub body: Vec<u8>,
    pub raw: Vec<u8>,
}

impl Response {
    /// Parses a byte buffer as an HTTP/1 response.  On a well-formed head
    /// the status fields and lower-cased headers are filled, the body is
    /// decompressed when announced, and `raw` is the header block and the
    /// final body joined on a blank line.  On anything else the status
    /// fields stay empty and `raw` keeps the input unchanged.
    pub fn parse(data: &[u8]) -> (r: Response)
        ensures
            match parse_response_spec(data@) {
                Some((v, st, rs, hs, bstart)) => {
                    &&& r.version == Some(v)
                    &&& r.status_code == Some(st)
                    &&& match r.reason {
                        Some(x) => x@ == rs,
                        None => false,
                    }
                    &&& header_pairs(r.headers@) == hs
                    &&& r.body@ == body_of(data@, hs, bstart)
                    &&& r.raw@ == data@.subrange(0, bstart - 4) + seq![CR, LF, CR, LF] + r.body@
                },
                None => {
                    &&& r.version is None
                    &&& r.status_code is None
                    &&& r.reason is None
                    &&& r.headers@.len() == 0
                    &&& r.body@.len() == 0
                    &&& r.raw@ == data@
                },
            },
    {
        let n = s_len(data);
        let parsed = parse_head(data);
        match parsed {
            Some((version, status, reason, headers, bstart)) => {
                let raw_body = copy_range(data, bstart, n);
                let encoding = header_value(&headers, "content-encoding".as_bytes());
                let announced = match encoding {
                    Some(v) => {
                        let lowered = crate::strutil::to_lower_bytes(v.as_slice());
                        crate::strutil::contains_bytes(lowered.as_slice(), "gzip".as_bytes())
                            || crate::strutil::contains_bytes(
                            lowered.as_slice(),
                            "deflate".as_bytes(),
                        )
                    },
                    None => false,
                };
                let body = if announced {
                    match decompress(raw_body.as_slice()) {
                        Some(d) => d,
                        None => raw_body,
                    }
                } else {
                    raw_body
                };
                let mut raw = copy_range(data, 0, bstart - 4);
                raw.push(CR);
                raw.push(LF);
                raw.push(CR);
                raw.push(LF);
                let mut i: usize = 0;
                let ghost head = data@.subrange(0, bstart - 4) + seq![CR, LF, CR, LF];
                proof {
                    assert(raw@ =~= head);
                }
                while i < body.len()
                    invariant
                        i <= body@.len(),
                        raw@ == head + body@.subrange(0, i as int),
                    decreases body@.len() - i,
                {
                    raw.push(body[i]);
                    proof {
                        assert(raw@ =~= head + body@.subrange(0, i + 1));
                    }
                    i = i + 1;
                }
                proof {
                    assert(raw@ =~= head + body@);
                }
                Response {
                    version: Some(version),
                    status_code: Some(status),
                    reason: Some(reason),
                    headers,
                    body,
                    raw,
                }
            },
            None => {
                let raw = copy_range(data, 0, n);
                proof {
                    assert(data@.subrange(0, data@.len() as int) =~= data@);
                }
                Response {
                    version: None,
                    status_code: None,
                    reason: None,
                    headers: Vec::new(),
                    body: Vec::new(),
                    raw,
                }
            },
        }
    }
}

/// Slice length as its own step, so the length is available as a `usize`.
fn s_len(s: &[u8]) -> (r: usize)
    ensures
        r == s@.len(),
{
    s.len()
}

/// Parses the status line and header block, executable form.
fn parse_head(data: &[u8]) -> (r: Option<(u8, u16, Vec<u8>, Vec<Header>, usize)>)
    ensures
        match r {
            Some((v, st, reason, hs, bstart)) => parse_response_spec(data@) == Some(
                (v, st, reason@, header_pairs(hs@), bstart as int),
            ) && 16 <= bstart <= data@.len(),
            None => parse_response_spec(data@) is None,
        },
{
    proof {
        lemma_find_crlf(data@, 0);
    }
    let e0 = match find_crlf(data, 0) {
        Some(e) => e,
        None => {
            return None;
        },
    };
    let ghost line = data@.subrange(0, e0 as int);
    // Status line: `HTTP/1.D SP DDD [SP reason]`.
    if e0 < 12 {
        return None;
    }
    let head_ok = data[0] == 72 && data[1] == 84 && data[2] == 84 && data[3] == 80 && data[4] == 47
        && data[5] == 49 && data[6] == 46;
    proof {
        assert forall|k: int| 0 <= k < e0 implies line[k] == data@[k] by {}
        assert(line.subrange(0, 7) =~= data@.subrange(0, 7));
        if head_ok {
            assert(data@.subrange(0, 7) =~= http1_prefix());
        } else {
            assert(data@.subrange(0, 7)[if data@[0] != 72 {
                0int
            } else if data@[1] != 84 {
                1int
            } else if data@[2] != 84 {
                2int
            } else if data@[3] != 80 {
                3int
            } else if data@[4] != 47 {
                4int
            } else if data@[5] != 49 {
                5int
            } else {
                6int
            }] != http1_prefix()[if data@[0] != 72 {
                0int
            } else if data@[1] != 84 {
                1int
            } else if data@[2] != 84 {
                2int
            } else if data@[3] != 80 {
                3int
            } else if data@[4] != 47 {
                4int
            } else if data@[5] != 49 {
                5int
            } else {
                6int
            }]);
        }
    }
    if !head_ok {
        return None;
    }
    let v_digit = data[7];
    let sp1 = data[8];
    let d0 = data[9];
    let d1 = data[10];
    let d2 = data[11];
    if v_digit < DIGIT_ZERO || v_digit > crate::strutil::DIGIT_NINE || sp1 != SP {
        return None;
    }
    if d0 < DIGIT_ZERO || d0 > crate::strutil::DIGIT_NINE || d1 < DIGIT_ZERO || d1
        > crate::strutil::DIGIT_NINE || d2 < DIGIT_ZERO || d2 > crate::strutil::DIGIT_NINE {
        return None;
    }
    if e0 > 12 && data[12] != SP {
        return None;
    }
    let version = v_digit - DIGIT_ZERO;
    let status = (d0 - DIGIT_ZERO) as u16 * 100 + (d1 - DIGIT_ZERO) as u16 * 10 + (d2
        - DIGIT_ZERO) as u16;
    let reason = if e0 == 12 {
        Vec::new()
    } else {
        copy_range(data, 13, e0)
    };
    proof {
        if e0 == 12 {
            assert(reason@ =~= Seq::<u8>::empty());
        } else {
            assert(line.subrange(13, line.len() as int) =~= data@.subrange(13, e0 as int));
        }
    }
    proof {
        assert(parse_status_line_spec(line) == Some((version as u8, status as u16, reason@)));
    }
    let (headers, bstart) = match parse_headers(data, e0 + 2) {
        Some(x) => x,
        None => {
            return None;
        },
    };
    Some((version, status, reason, headers, bstart))
}


/// The rendered status line: `HTTP/1.1 SP status SP reason`.
pub open spec fn render_status_line(status: u16, reason: Seq<u8>) -> Seq<u8> {
    http1_prefix() + seq![49u8, SP] + dec_digits(status as nat) + seq![SP] + reason
}

/// One rendered header line, `name: value` followed by CRLF.
pub open spec fn render_header(h: (Seq<u8>, Seq<u8>)) -> Seq<u8> {
    h.0 + seq![COLON, SP] + h.1 + seq![CR, LF]
}

/// The rendered header lines, in order.
pub open spec fn render_headers(hs: Seq<(Seq<u8>, Seq<u8>)>) -> Seq<u8>
    decreases hs.len(),
{
    if hs.len() == 0 {
        Seq::empty()
    } else {
        render_header(hs[0]) + render_headers(hs.drop_first())
    }
}

/// A whole rendered response: status line, header block, blank line, body.
pub open spec fn render_response_spec(
    status: u16,
    reason: Seq<u8>,
    hs: Seq<(Seq<u8>, Seq<u8>)>,
    body: Seq<u8>,
) -> Seq<u8> {
    render_status_line(status, reason) + seq![CR, LF] + render_headers(hs) + seq![CR, LF] + body
}

/// A header list fit for rendering: names are non-empty and free of colons,
/// carriage returns and line feeds; values are free of carriage returns and
/// line feeds and do not start with a blank.
pub open spec fn wf_render_headers(hs: Seq<(Seq<u8>, Seq<u8>)>) -> bool {
    forall|i: int|
        0 <= i < hs.len() ==> {
            let h = #[trigger] hs[i];
            &&& h.0.len() > 0
            &&& forall|k: int|
                0 <= k < h.0.len() ==> h.0[k] != COLON && h.0[k] != CR && h.0[k] != LF
            &&& forall|k: int| 0 <= k < h.1.len() ==> h.1[k] != CR && h.1[k] != LF
            &&& (h.1.len() == 0 || (h.1[0] != SP && h.1[0] != HTAB))
        }
}

/// A reason fit for rendering: free of carriage returns.
pub open spec fn wf_render_reason(reason: Seq<u8>) -> bool {
    forall|k: int| 0 <= k < reason.len() ==> reason[k] != CR
}

/// The header names with ASCII case folded, values untouched.
pub open spec fn lower_keys(hs: Seq<(Seq<u8>, Seq<u8>)>) -> Seq<(Seq<u8>, Seq<u8>)> {
    Seq::new(hs.len(), |i: int| (lower_bytes(hs[i].0), hs[i].1))
}

/// When `s[k]` starts a CRLF pair and no carriage return occurs earlier,
/// the search finds exactly `k`.
proof fn lemma_find_crlf_at(s: Seq<u8>, from: int, k: int)
    requires
        0 <= from <= k,
        k + 2 <= s.len(),
        s[k] == CR,
        s[k + 1] == LF,
        forall|j: int| from <= j < k ==> s[j] != CR,
    ensures
        find_crlf_spec(s, from) == Some(k),
    decreases k - from,
{
    if from < k {
        lemma_find_crlf_at(s, from + 1, k);
    }
}

/// When `s[k]` holds `b` and nothing earlier does, the search finds `k`.
proof fn lemma_find_byte_at(s: Seq<u8>, b: u8, from: int, k: int)
    requires
        0 <= from <= k < s.len(),
        s[k] == b,
        forall|j: int| from <= j < k ==> s[j] != b,
    ensures
        find_byte_spec(s, b, from) == Some(k),
    decreases k - from,
{
    if from < k {
        lemma_find_byte_at(s, b, from + 1, k);
    }
}

/// Between 100 and 999 the decimal rendering has exactly three digits.
proof fn lemma_dec_digits_three(n: nat)
    requires
        100 <= n <= 999,
    ensures
        dec_digits(n).len() == 3,
        dec_digits(n) == seq![
            ((n / 100) + DIGIT_ZERO) as u8,
            (((n / 10) % 10) + DIGIT_ZERO) as u8,
            ((n % 10) + DIGIT_ZERO) as u8,
        ],
{
    assert(10 <= n / 10 <= 99) by (nonlinear_arith)
        requires
            100 <= n <= 999,
    ;
    assert(1 <= n / 10 / 10 <= 9) by (nonlinear_arith)
        requires
            10 <= n / 10 <= 99,
    ;
    assert(n / 10 / 10 == n / 100) by (nonlinear_arith);
    assert((n / 10) % 10 == (n / 10) - (n / 10 / 10) * 10) by (nonlinear_arith);
    let a = n / 10;
    let b = a / 10;
    assert(dec_digits(b) =~= seq![((b + DIGIT_ZERO) as u8)]);
    assert(dec_digits(a) =~= dec_digits(b).push((((a % 10) + DIGIT_ZERO) as u8)));
    assert(dec_digits(n) =~= dec_digits(a).push((((n % 10) + DIGIT_ZERO) as u8)));
    assert(dec_digits(n) =~= seq![
        ((n / 100) + DIGIT_ZERO) as u8,
        (((n / 10) % 10) + DIGIT_ZERO) as u8,
        ((n % 10) + DIGIT_ZERO) as u8,
    ]);
}

/// Parsing a rendered header block gives back the headers, keys folded to
/// lower case, and ends where the body begins.
proof fn lemma_parse_rendered_headers(s: Seq<u8>, from: int, hs: Seq<(Seq<u8>, Seq<u8>)>, body: Seq<u8>)
    requires
        0 <= from <= s.len(),
        wf_render_headers(hs),
        s.subrange(from, s.len() as int) == render_headers(hs) + seq![CR, LF] + body,
    ensures
        parse_headers_spec(s, from) == Some((lower_keys(hs), s.len() - body.len())),
    decreases hs.len(),
{
    let tail = s.subrange(from, s.len() as int);
    if hs.len() == 0 {
        assert(tail =~= seq![CR, LF] + body);
        assert(s[from] == tail[0] && s[from + 1] == tail[1]);
        lemma_find_crlf_at(s, from, from);
        assert(lower_keys(hs) =~= Seq::<(Seq<u8>, Seq<u8>)>::empty());
    } else {
        let h = hs[0];
        let line = h.0 + seq![COLON, SP] + h.1;
        let line_len = line.len() as int;
        assert(render_headers(hs) == render_header(h) + render_headers(hs.drop_first()));
        let rest_tail = render_headers(hs.drop_first()) + seq![CR, LF] + body;
        assert(tail =~= line + seq![CR, LF] + rest_tail);
        // The CRLF closing the first line is the first carriage return.
        assert forall|j: int| from <= j < from + line_len implies s[j] != CR by {
            assert(s[j] == tail[j - from]);
            assert(tail[j - from] == line[j - from]);
            if j - from < h.0.len() {
            } else if j - from < h.0.len() + 2 {
            } else {
                assert(line[j - from] == h.1[j - from - h.0.len() - 2]);
            }
        }
        assert(s[from + line_len] == tail[line_len] && tail[line_len] == CR);
        assert(s[from + line_len + 1] == tail[line_len + 1] && tail[line_len + 1] == LF);
        lemma_find_crlf_at(s, from, from + line_len);
        // The first line parses to the lower-cased name and the value.
        let sline = s.subrange(from, from + line_len);
        assert(sline =~= line);
        assert forall|j: int| 0 <= j < h.0.len() implies line[j] != COLON by {
            assert(line[j] == h.0[j]);
        }
        assert(line[h.0.len() as int] == COLON);
        lemma_find_byte_at(line, COLON, 0, h.0.len() as int);
        assert(line.subrange(0, h.0.len() as int) =~= h.0);
        let after = line.subrange(h.0.len() as int + 1, line.len() as int);
        assert(after =~= seq![SP] + h.1);
        assert(after.skip(1) =~= h.1);
        assert(after[0] == SP);
        assert(ltrim_spaces(after) == ltrim_spaces(after.skip(1)));
        if h.1.len() > 0 {
            assert(h.1[0] != SP && h.1[0] != HTAB);
            assert(ltrim_spaces(h.1) == h.1);
        } else {
            assert(ltrim_spaces(h.1) == h.1);
        }
        assert(ltrim_spaces(after) == h.1);
        assert(parse_header_line_spec(sline) == Some((lower_bytes(h.0), h.1)));
        // The rest of the block parses by induction.
        let from2 = from + line_len + 2;
        assert(s.subrange(from2, s.len() as int) =~= tail.subrange(line_len + 2, tail.len() as int));
        assert(tail.subrange(line_len + 2, tail.len() as int) =~= rest_tail);
        assert(s.subrange(from2, s.len() as int) == rest_tail);
        lemma_parse_rendered_headers(s, from2, hs.drop_first(), body);
        assert(seq![(lower_bytes(h.0), h.1)] + lower_keys(hs.drop_first()) =~= lower_keys(hs));
    }
}

/// Parsing a rendered response yields exactly what was supplied: version
/// one, the status, the reason, the headers with lower-cased keys, and the
/// body starting where it was placed.
pub proof fn lemma_parse_rendered_response(
    status: u16,
    reason: Seq<u8>,
    hs: Seq<(Seq<u8>, Seq<u8>)>,
    body: Seq<u8>,
)
    requires
        100 <= status <= 999,
        wf_render_reason(reason),
        wf_render_headers(hs),
    ensures
        parse_response_spec(render_response_spec(status, reason, hs, body)) == Some(
            (
                1u8,
                status,
                reason,
                lower_keys(hs),
                render_response_spec(status, reason, hs, body).len() - body.len(),
            ),
        ),
{
    let sl = render_status_line(status, reason);
    let s = render_response_spec(status, reason, hs, body);
    lemma_dec_digits_three(status as nat);
    assert(sl.len() == 13 + reason.len());
    // The CRLF after the status line is the first carriage return.
    assert forall|j: int| 0 <= j < sl.len() implies s[j] == sl[j] by {}
    assert forall|j: int| 0 <= j < sl.len() implies s[j] != CR by {
        assert(sl[j] == (http1_prefix() + seq![49u8, SP] + dec_digits(status as nat) + seq![SP]
            + reason)[j]);
        if j < 9 {
        } else if j < 12 {
            assert(sl[j] == dec_digits(status as nat)[j - 9]);
            assert(crate::strutil::is_digit(sl[j])) by {
                crate::strutil::lemma_dec_digits_value(status as nat);
            }
        } else if j == 12 {
        } else {
            assert(sl[j] == reason[j - 13]);
        }
    }
    assert(s[sl.len() as int] == CR && s[sl.len() as int + 1] == LF);
    lemma_find_crlf_at(s, 0, sl.len() as int);
    // The status line parses back to what was rendered.
    let line = s.subrange(0, sl.len() as int);
    assert(line =~= sl);
    assert(sl.subrange(0, 7) =~= http1_prefix());
    assert(sl[7] == 49 && sl[8] == SP);
    assert(crate::strutil::is_digit(49u8));
    assert(sl[9] == dec_digits(status as nat)[0] && sl[10] == dec_digits(status as nat)[1] && sl[11]
        == dec_digits(status as nat)[2]);
    crate::strutil::lemma_dec_digits_value(status as nat);
    if sl.len() > 12 {
        assert(sl[12] == SP);
    }
    assert(sl.subrange(13, sl.len() as int) =~= reason);
    let st = ((sl[9] - DIGIT_ZERO) * 100 + (sl[10] - DIGIT_ZERO) * 10 + (sl[11]
        - DIGIT_ZERO)) as u16;
    assert(st == status) by {
        assert(status as nat / 100 <= 9) by (nonlinear_arith)
            requires
                100 <= status <= 999,
        ;
        assert((status as nat / 100) * 100 + ((status as nat / 10) % 10) * 10 + (status as nat % 10)
            == status as nat) by (nonlinear_arith);
    }
    assert(parse_status_line_spec(line) == Some((1u8, status, reason)));
    // The header block parses by the block lemma.
    assert(s.subrange(sl.len() as int + 2, s.len() as int) =~= render_headers(hs) + seq![CR, LF] + body);
    lemma_parse_rendered_headers(s, sl.len() as int + 2, hs, body);
}

/// Appends a slice to a byte vector.
pub fn append_bytes(dst: &mut Vec<u8>, src: &[u8])
    ensures
        final(dst)@ == old(dst)@ + src@,
{
    let mut i: usize = 0;
    proof {
        assert(dst@ =~= old(dst)@ + src@.subrange(0, 0));
    }
    while i < src.len()
        invariant
            i <= src@.len(),
            dst@ == old(dst)@ + src@.subrange(0, i as int),
        decreases src@.len() - i,
    {
        dst.push(src[i]);
        proof {
            assert(dst@ =~= old(dst)@ + src@.subrange(0, i + 1));
        }
        i = i + 1;
    }
    proof {
        assert(dst@ =~= old(dst)@ + src@);
    }
}

/// Renders a response, the inverse direction of `parse` for well-formed
/// parts: used by tests and by anything that must synthesize a response.
pub fn render_response(status: u16, reason: &[u8], headers: &Vec<Header>, body: &[u8]) -> (r: Vec<
    u8,
>)
    requires
        100 <= status <= 999,
    ensures
        r@ == render_response_spec(status, reason@, header_pairs(headers@), body@),
{
    let mut r: Vec<u8> = Vec::new();
    r.push(72);
    r.push(84);
    r.push(84);
    r.push(80);
    r.push(47);
    r.push(49);
    r.push(46);
    r.push(49);
    r.push(SP);
    let digits = crate::strutil::format_u64(status as u64);
    append_bytes(&mut r, digits.as_slice());
    r.push(SP);
    append_bytes(&mut r, reason);
    r.push(CR);
    r.push(LF);
    let ghost sl_done = render_status_line(status, reason@) + seq![CR, LF];
    proof {
        assert(r@ =~= sl_done);
    }
    let mut i: usize = 0;
    while i < headers.len()
        invariant
            i <= headers@.len(),
            r@ == sl_done + render_headers(header_pairs(headers@).subrange(0, i as int)),
        decreases headers@.len() - i,
    {
        append_bytes(&mut r, headers[i].name.as_slice());
        r.push(COLON);
        r.push(SP);
        append_bytes(&mut r, headers[i].value.as_slice());
        r.push(CR);
        r.push(LF);
        i = i + 1;
        proof {
            let hp = header_pairs(headers@);
            lemma_render_headers_snoc(hp.subrange(0, i as int));
            assert(hp.subrange(0, i as int).drop_last() =~= hp.subrange(0, i - 1));
            assert(r@ =~= sl_done + render_headers(hp.subrange(0, i as int)));
        }
    }
    r.push(CR);
    r.push(LF);
    append_bytes(&mut r, body);
    proof {
        assert(header_pairs(headers@).subrange(0, headers@.len() as int) =~= header_pairs(
            headers@,
        ));
        assert(r@ =~= render_response_spec(status, reason@, header_pairs(headers@), body@));
    }
    r
}

/// Rendering a block and then one more header appends that header's line.
proof fn lemma_render_headers_snoc(hs: Seq<(Seq<u8>, Seq<u8>)>)
    requires
        hs.len() > 0,
    ensures
        render_headers(hs) == render_headers(hs.drop_last()) + render_header(hs.last()),
    decreases hs.len(),
{
    if hs.len() == 1 {
        assert(hs.drop_last() =~= Seq::<(Seq<u8>, Seq<u8>)>::empty());
        assert(render_headers(hs.drop_last()) + render_header(hs.last()) =~= render_header(
            hs[0],
        ) + render_headers(hs.drop_first()));
    } else {
        lemma_render_headers_snoc(hs.drop_first());
        assert(hs.drop_first().drop_last() =~= hs.drop_last().drop_first());
        assert(hs.drop_first().last() == hs.last());
        assert(hs.drop_last()[0] == hs[0]);
        assert(render_headers(hs) == render_header(hs[0]) + render_headers(hs.drop_first()));
        assert(render_headers(hs.drop_last()) == render_header(hs[0]) + render_headers(
            hs.drop_last().drop_first(),
        ));
        assert(render_headers(hs.drop_last()) + render_header(hs.last()) =~= render_header(hs[0])
            + (render_headers(hs.drop_first().drop_last()) + render_header(hs.drop_first().last())));
    }
}

} // verus!
