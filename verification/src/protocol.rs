//! Building the raw request bytes.
//!
//! A request is held as plain parts — method, path, version, header
//! lines — and rendered to the one immutable byte buffer that every
//! worker then writes verbatim: the request line, one `name: value` line
//! per header, and a blank-line terminator. [`spec_raw_request`] is the
//! exact byte sequence; the builder is proved to produce it.

use vstd::prelude::*;

use crate::Method;
use crate::Version;

verus! {

/// One header line: a name and a value, as bytes.
#[derive(Clone, Debug)]
pub struct Header {
    /// The header name, without the colon.
    pub name: Vec<u8>,
    /// The header value, without the leading space.
    pub value: Vec<u8>,
}

/// The parts of one request, before rendering.
#[derive(Clone, Debug)]
pub struct RequestParts {
    /// The request method.
    pub method: Method,
    /// The request path, as bytes.
    pub path: Vec<u8>,
    /// The protocol version of the request line.
    pub version: Version,
    /// The header lines, in order.
    pub headers: Vec<Header>,
}

/// Why a request could not be rendered.
#[derive(Copy, Clone, Debug, PartialEq, Eq, Structural)]
pub enum ProtocolError {
    /// The path is empty or contains a byte that would break the
    /// request line.
    InvalidPath,
    /// A header name is empty, or a header contains a byte that would
    /// break its line.
    InvalidHeader,
}

/// The bytes of a method name on the request line.
pub open spec fn spec_method_bytes(m: Method) -> Seq<u8> {
    match m {
        Method::OPTIONS => seq!['O' as u8, 'P' as u8, 'T' as u8, 'I' as u8, 'O' as u8, 'N' as u8, 'S' as u8],
        Method::GET => seq!['G' as u8, 'E' as u8, 'T' as u8],
        Method::HEAD => seq!['H' as u8, 'E' as u8, 'A' as u8, 'D' as u8],
        Method::TRACE => seq!['T' as u8, 'R' as u8, 'A' as u8, 'C' as u8, 'E' as u8],
    }
}

/// The bytes of a version name on the request line.
pub open spec fn spec_version_bytes(v: Version) -> Seq<u8> {
    match v {
        Version::H09 => seq!['H' as u8, 'T' as u8, 'T' as u8, 'P' as u8, '/' as u8, '0' as u8, '.' as u8, '9' as u8],
        Version::H10 => seq!['H' as u8, 'T' as u8, 'T' as u8, 'P' as u8, '/' as u8, '1' as u8, '.' as u8, '0' as u8],
        Version::H11 => seq!['H' as u8, 'T' as u8, 'T' as u8, 'P' as u8, '/' as u8, '1' as u8, '.' as u8, '1' as u8],
    }
}

/// A usable path: non-empty, and free of the bytes that would break the
/// request line — carriage return, line feed, and space.
pub open spec fn path_wf(path: Seq<u8>) -> bool {
    &&& path.len() >= 1
    &&& forall|i: int|
        0 <= i < path.len() ==> path[i] != '\r' as u8 && path[i] != '\n' as u8 && path[i] != ' ' as u8
}

/// A usable header: a non-empty name free of carriage return, line
/// feed, and colon, and a value free of carriage return and line feed.
pub open spec fn header_wf(h: Header) -> bool {
    &&& h.name@.len() >= 1
    &&& forall|i: int|
        0 <= i < h.name@.len() ==> h.name@[i] != '\r' as u8 && h.name@[i] != '\n' as u8 && h.name@[i]
            != ':' as u8
    &&& forall|i: int| 0 <= i < h.value@.len() ==> h.value@[i] != '\r' as u8 && h.value@[i] != '\n' as u8
}

/// All headers usable.
pub open spec fn headers_wf(hs: Seq<Header>) -> bool {
    forall|i: int| 0 <= i < hs.len() ==> header_wf(hs[i])
}

/// The rendered bytes of one header line.
pub open spec fn spec_header_bytes(h: Header) -> Seq<u8> {
    h.name@ + seq![':' as u8, ' ' as u8] + h.value@ + seq!['\r' as u8, '\n' as u8]
}

/// The rendered bytes of all header lines, in order.
pub open spec fn spec_headers_bytes(hs: Seq<Header>) -> Seq<u8>
    decreases hs.len(),
{
    if hs.len() == 0 {
        Seq::empty()
    } else {
        spec_header_bytes(hs[0]) + spec_headers_bytes(hs.drop_first())
    }
}

/// The rendered bytes of a whole request: the request line, the header
/// lines, and the blank-line terminator.
pub open spec fn spec_raw_request(r: RequestParts) -> Seq<u8> {
    spec_method_bytes(r.method) + seq![' ' as u8] + r.path@ + seq![' ' as u8] + spec_version_bytes(r.version)
        + seq!['\r' as u8, '\n' as u8] + spec_headers_bytes(r.headers@) + seq!['\r' as u8, '\n' as u8]
}

impl RequestParts {
    /// A renderable request: a usable path and usable headers.
    pub open spec fn wf(self) -> bool {
        path_wf(self.path@) && headers_wf(self.headers@)
    }
}

/// Rendering the header lines of a concatenation is rendering the parts
/// in order.
proof fn lemma_headers_bytes_append(a: Seq<Header>, b: Seq<Header>)
    ensures
        spec_headers_bytes(a + b) =~= spec_headers_bytes(a) + spec_headers_bytes(b),
    decreases a.len(),
{
    if a.len() == 0 {
        assert(a + b =~= b);
        assert(spec_headers_bytes(a) + spec_headers_bytes(b) =~= spec_headers_bytes(b));
    } else {
        assert((a + b).len() > 0);
        assert((a + b)[0] == a[0]);
        assert((a + b).drop_first() =~= a.drop_first() + b);
        lemma_headers_bytes_append(a.drop_first(), b);
        assert(spec_headers_bytes(a + b) =~= spec_headers_bytes(a) + spec_headers_bytes(b));
    }
}

impl Method {
    /// The method name as it stands on the request line.
    pub fn wire_bytes(&self) -> (r: Vec<u8>)
        ensures
            r@ == spec_method_bytes(*self),
    {
        let mut r: Vec<u8> = Vec::new();
        match self {
            Method::OPTIONS => {
                r.push('O' as u8);
                r.push('P' as u8);
                r.push('T' as u8);
                r.push('I' as u8);
                r.push('O' as u8);
                r.push('N' as u8);
                r.push('S' as u8);
            },
            Method::GET => {
                r.push('G' as u8);
                r.push('E' as u8);
                r.push('T' as u8);
            },
            Method::HEAD => {
                r.push('H' as u8);
                r.push('E' as u8);
                r.push('A' as u8);
                r.push('D' as u8);
            },
            Method::TRACE => {
                r.push('T' as u8);
                r.push('R' as u8);
                r.push('A' as u8);
                r.push('C' as u8);
                r.push('E' as u8);
            },
        }
        assert(r@ =~= spec_method_bytes(*self));
        r
    }
}

impl Version {
    /// The version name as it stands on the request line.
    pub fn wire_bytes(&self) -> (r: Vec<u8>)
        ensures
            r@ == spec_version_bytes(*self),
    {
        let mut r: Vec<u8> = Vec::new();
        r.push('H' as u8);
        r.push('T' as u8);
        r.push('T' as u8);
        r.push('P' as u8);
        r.push('/' as u8);
        match self {
            Version::H09 => {
                r.push('0' as u8);
                r.push('.' as u8);
                r.push('9' as u8);
            },
            Version::H10 => {
                r.push('1' as u8);
                r.push('.' as u8);
                r.push('0' as u8);
            },
            Version::H11 => {
                r.push('1' as u8);
                r.push('.' as u8);
                r.push('1' as u8);
            },
        }
        assert(r@ =~= spec_version_bytes(*self));
        r
    }
}

/// Appends every byte of `bytes` to `out`.
fn append_bytes(out: &mut Vec<u8>, bytes: &Vec<u8>)
    ensures
        final(out)@ == old(out)@ + bytes@,
{
    let mut i: usize = 0;
    while i < bytes.len()
        invariant
            i <= bytes@.len(),
            out@ == old(out)@ + bytes@.take(i as int),
        decreases bytes@.len() - i,
    {
        out.push(bytes[i]);
        assert(bytes@.take(i + 1) =~= bytes@.take(i as int).push(bytes@[i as int]));
        i = i + 1;
    }
    assert(bytes@.take(bytes@.len() as int) =~= bytes@);
}

/// Checks a path for [`path_wf`].
fn path_ok(path: &Vec<u8>) -> (b: bool)
    ensures
        b == path_wf(path@),
{
    if path.len() == 0 {
        return false;
    }
    let mut i: usize = 0;
    while i < path.len()
        invariant
            i <= path@.len(),
            forall|k: int|
                0 <= k < i ==> path@[k] != '\r' as u8 && path@[k] != '\n' as u8 && path@[k] != ' ' as u8,
        decreases path@.len() - i,
    {
        let c = path[i];
        if c == '\r' as u8 || c == '\n' as u8 || c == ' ' as u8 {
            return false;
        }
        i = i + 1;
    }
    true
}

/// Checks one header for [`header_wf`].
fn header_ok(h: &Header) -> (b: bool)
    ensures
        b == header_wf(*h),
{
    if h.name.len() == 0 {
        return false;
    }
    let mut i: usize = 0;
    while i < h.name.len()
        invariant
            i <= h.name@.len(),
            forall|k: int|
                0 <= k < i ==> h.name@[k] != '\r' as u8 && h.name@[k] != '\n' as u8 && h.name@[k] != ':' as u8,
        decreases h.name@.len() - i,
    {
        let c = h.name[i];
        if c == '\r' as u8 || c == '\n' as u8 || c == ':' as u8 {
            return false;
        }
        i = i + 1;
    }
    let mut j: usize = 0;
    while j < h.value.len()
        invariant
            j <= h.value@.len(),
            forall|k: int| 0 <= k < i ==> h.name@[k] != '\r' as u8 && h.name@[k] != '\n' as u8 && h.name@[k] != ':' as u8,
            i == h.name@.len(),
            forall|k: int| 0 <= k < j ==> h.value@[k] != '\r' as u8 && h.value@[k] != '\n' as u8,
        decreases h.value@.len() - j,
    {
        let c = h.value[j];
        if c == '\r' as u8 || c == '\n' as u8 {
            return false;
        }
        j = j + 1;
    }
    true
}

/// Appends one rendered header line to `out`.
fn append_header(out: &mut Vec<u8>, h: &Header)
    ensures
        final(out)@ == old(out)@ + spec_header_bytes(*h),
{
    append_bytes(out, &h.name);
    out.push(':' as u8);
    out.push(' ' as u8);
    append_bytes(out, &h.value);
    out.push('\r' as u8);
    out.push('\n' as u8);
    assert(out@ =~= old(out)@ + spec_header_bytes(*h));
}

/// The one protocol this engine speaks: plain HTTP over TCP.
pub struct Http {}

impl Http {
    /// A fresh protocol renderer.
    pub fn new() -> Http {
        Http {}
    }

    /// Renders `request` to its raw bytes, or says why it cannot be: an
    /// unusable path first, then an unusable header.
    pub fn raw_request(&self, request: &RequestParts) -> (r: Result<Vec<u8>, ProtocolError>)
        ensures
            r is Ok <==> request.wf(),
            r matches Ok(v) ==> v@ == spec_raw_request(*request),
            !path_wf(request.path@) ==> r == Result::<Vec<u8>, ProtocolError>::Err(
                ProtocolError::InvalidPath,
            ),
            path_wf(request.path@) && !headers_wf(request.headers@) ==> r == Result::<
                Vec<u8>,
                ProtocolError,
            >::Err(ProtocolError::InvalidHeader),
    {
        if !path_ok(&request.path) {
            return Err(ProtocolError::InvalidPath);
        }
        let mut i: usize = 0;
        while i < request.headers.len()
            invariant
                i <= request.headers@.len(),
                path_wf(request.path@),
                forall|k: int| 0 <= k < i ==> header_wf(request.headers@[k]),
            decreases request.headers@.len() - i,
        {
            if !header_ok(&request.headers[i]) {
                return Err(ProtocolError::InvalidHeader);
            }
            i = i + 1;
        }
        let mut raw: Vec<u8> = Vec::new();
        let method_bytes = request.method.wire_bytes();
        append_bytes(&mut raw, &method_bytes);
        raw.push(' ' as u8);
        append_bytes(&mut raw, &request.path);
        raw.push(' ' as u8);
        let version_bytes = request.version.wire_bytes();
        append_bytes(&mut raw, &version_bytes);
        raw.push('\r' as u8);
        raw.push('\n' as u8);
        let ghost line = spec_method_bytes(request.method) + seq![' ' as u8] + request.path@ + seq![' ' as u8]
            + spec_version_bytes(request.version) + seq!['\r' as u8, '\n' as u8];
        assert(raw@ =~= line);
        let mut j: usize = 0;
        while j < request.headers.len()
            invariant
                j <= request.headers@.len(),
                raw@ == line + spec_headers_bytes(request.headers@.take(j as int)),
            decreases request.headers@.len() - j,
        {
            append_header(&mut raw, &request.headers[j]);
            proof {
                let hs = request.headers@;
                let single = seq![hs[j as int]];
                assert(hs.take(j + 1) =~= hs.take(j as int) + single);
                lemma_headers_bytes_append(hs.take(j as int), single);
                assert(single.drop_first() =~= Seq::<Header>::empty());
                assert(spec_headers_bytes(single) == spec_header_bytes(hs[j as int])
                    + spec_headers_bytes(Seq::empty()));
                assert(spec_headers_bytes(single) =~= spec_header_bytes(hs[j as int]));
                assert(raw@ =~= line + spec_headers_bytes(hs.take(j + 1)));
            }
            j = j + 1;
        }
        assert(request.headers@.take(request.headers@.len() as int) =~= request.headers@);
        raw.push('\r' as u8);
        raw.push('\n' as u8);
        assert(raw@ =~= spec_raw_request(*request));
        Ok(raw)
    }
}

/// Renders `request` to its raw bytes with the one supported protocol.
pub fn raw_request(request: &RequestParts) -> (r: Result<Vec<u8>, ProtocolError>)
    ensures
        r is Ok <==> request.wf(),
        r matches Ok(v) ==> v@ == spec_raw_request(*request),
        !path_wf(request.path@) ==> r == Result::<Vec<u8>, ProtocolError>::Err(
            ProtocolError::InvalidPath,
        ),
        path_wf(request.path@) && !headers_wf(request.headers@) ==> r == Result::<
            Vec<u8>,
            ProtocolError,
        >::Err(ProtocolError::InvalidHeader),
{
    let protocol = Http::new();
    protocol.raw_request(request)
}

} // verus!
