//! The HTTP upgrade in front of the frame stream.
use crate::crypto::same_bytes;
use crate::error::RelayError;
use vstd::prelude::*;
use vstd::string::StringSliceAdditionalSpecFns;

verus! {

/// The size of the buffer for the first read of a connection. A read that fills it is too big.
pub const UPGRADE_MSG_SIZE: usize = 4096;

/// `HTTP/1.1 200 OK`, and an empty line: what the server answers to a good upgrade request.
pub const HTTP_OK: [u8; 19] = [
    0x48, 0x54, 0x54, 0x50, 0x2f, 0x31, 0x2e, 0x31, 0x20, 0x32, 0x30, 0x30, 0x20, 0x4f, 0x4b, 0x0d,
    0x0a, 0x0d, 0x0a,
];

/// The upgrade request of a client up to the version in its `User-Agent` header.
pub const UPGRADE_REQUEST_HEAD: [u8; 79] = [
    0x47, 0x45, 0x54, 0x20, 0x2f, 0x64, 0x65, 0x72, 0x70, 0x20, 0x48, 0x54, 0x54, 0x50, 0x2f, 0x31,
    0x2e, 0x31, 0x0d, 0x0a, 0x43, 0x6f, 0x6e, 0x6e, 0x65, 0x63, 0x74, 0x69, 0x6f, 0x6e, 0x3a, 0x20,
    0x55, 0x70, 0x67, 0x72, 0x61, 0x64, 0x65, 0x0d, 0x0a, 0x55, 0x70, 0x67, 0x72, 0x61, 0x64, 0x65,
    0x3a, 0x20, 0x57, 0x65, 0x62, 0x53, 0x6f, 0x63, 0x6b, 0x65, 0x74, 0x0d, 0x0a, 0x55, 0x73, 0x65,
    0x72, 0x2d, 0x41, 0x67, 0x65, 0x6e, 0x74, 0x3a, 0x20, 0x74, 0x65, 0x6c, 0x69, 0x6f, 0x2f,
];

/// The end of the upgrade request: the end of the last header, and an empty line.
pub const UPGRADE_REQUEST_TAIL: [u8; 4] = [0x0d, 0x0a, 0x0d, 0x0a];

/// The name of the `Upgrade` header.
pub const UPGRADE_NAME: [u8; 7] = [0x55, 0x70, 0x67, 0x72, 0x61, 0x64, 0x65];

/// The name of the `Connection` header.
pub const CONNECTION_NAME: [u8; 10] = [0x43, 0x6f, 0x6e, 0x6e, 0x65, 0x63, 0x74, 0x69, 0x6f, 0x6e];

/// `websocket`
pub const WEBSOCKET: [u8; 9] = [0x77, 0x65, 0x62, 0x73, 0x6f, 0x63, 0x6b, 0x65, 0x74];

/// `derp`
pub const DERP: [u8; 4] = [0x64, 0x65, 0x72, 0x70];

/// `upgrade`
pub const UPGRADE: [u8; 7] = [0x75, 0x70, 0x67, 0x72, 0x61, 0x64, 0x65];

/// One header of an HTTP message: its name and its value, as they stand in the message.
#[derive(Debug, Clone)]
pub struct Header {
    pub name: Vec<u8>,
    pub value: Vec<u8>,
}

impl View for Header {
    type V = (Seq<u8>, Seq<u8>);

    open spec fn view(&self) -> (Seq<u8>, Seq<u8>) {
        (self.name@, self.value@)
    }
}

impl Header {
    /// The header with this name and this value.
    pub fn new(name: &str, value: &[u8]) -> (header: Self)
        ensures
            header.name@ == name.spec_bytes(),
            header.value@ == value@,
    {
        Header {
            name: vstd::slice::slice_to_vec(name.as_bytes()),
            value: vstd::slice::slice_to_vec(value),
        }
    }
}

/// The front of an HTTP message, as far as the parser got.
#[derive(Debug)]
pub enum HttpHead {
    /// The message ends before its headers do.
    Partial,
    /// All headers are there, and the body starts at `body_start`.
    Complete { body_start: usize, headers: Vec<Header> },
}

/// The views of `headers`, in their order.
pub open spec fn header_views(headers: Seq<Header>) -> Seq<(Seq<u8>, Seq<u8>)> {
    Seq::new(headers.len(), |i: int| headers[i]@)
}

impl HttpHead {
    /// Where the body starts and what the headers are; `None` for a partial message.
    pub open spec fn model(&self) -> Option<(nat, Seq<(Seq<u8>, Seq<u8>)>)> {
        match self {
            HttpHead::Partial => None,
            HttpHead::Complete { body_start, headers } => Some(
                (*body_start as nat, header_views(headers@)),
            ),
        }
    }
}

/// What the HTTP parser makes of `buf` as a request with at most 16 headers: `None` where it
/// is no request, `Some(None)` where it ends too early, else where its body starts and what
/// its headers are.
pub uninterp spec fn httparse_request(buf: Seq<u8>) -> Option<
    Option<(nat, Seq<(Seq<u8>, Seq<u8>)>)>,
>;

/// What the HTTP parser makes of `buf` as a response with at most 16 headers: `None` where it
/// is no response, `Some(None)` where it ends too early, else where its body starts and what
/// its headers are.
pub uninterp spec fn httparse_response(buf: Seq<u8>) -> Option<
    Option<(nat, Seq<(Seq<u8>, Seq<u8>)>)>,
>;

/// The error of the HTTP parser.
#[verifier::external_type_specification]
#[verifier::external_body]
pub struct ExHttpError(httparse::Error);

/// `httparse::Request::parse`, on a request with room for 16 headers. The contract only names
/// the result: it depends on the bytes of `buf` alone.
#[verifier::external_body]
fn parse_request(buf: &[u8]) -> (r: Result<HttpHead, httparse::Error>)
    ensures
        match r {
            Ok(head) => httparse_request(buf@) == Some(head.model()),
            Err(_) => httparse_request(buf@) is None,
        },
{
    let mut headers = [httparse::EMPTY_HEADER; 16];
    let mut request = httparse::Request::new(&mut headers);
    Ok(match request.parse(buf)? {
        httparse::Status::Partial => HttpHead::Partial,
        httparse::Status::Complete(body_start) => HttpHead::Complete {
            body_start,
            headers: request.headers.iter().map(|h| Header::new(h.name, h.value)).collect(),
        },
    })
}

/// `httparse::Response::parse`, on a response with room for 16 headers. The contract only
/// names the result: it depends on the bytes of `buf` alone.
#[verifier::external_body]
fn parse_response(buf: &[u8]) -> (r: Result<HttpHead, httparse::Error>)
    ensures
        match r {
            Ok(head) => httparse_response(buf@) == Some(head.model()),
            Err(_) => httparse_response(buf@) is None,
        },
{
    let mut headers = [httparse::EMPTY_HEADER; 16];
    let mut response = httparse::Response::new(&mut headers);
    Ok(match response.parse(buf)? {
        httparse::Status::Partial => HttpHead::Partial,
        httparse::Status::Complete(body_start) => HttpHead::Complete {
            body_start,
            headers: response.headers.iter().map(|h| Header::new(h.name, h.value)).collect(),
        },
    })
}

/// The lower-case letter for an upper-case ASCII letter, and every other byte as it is.
pub open spec fn spec_ascii_lower(byte: u8) -> u8 {
    if 0x41 <= byte <= 0x5a {
        (byte + 0x20) as u8
    } else {
        byte
    }
}

/// `bytes` with its upper-case ASCII letters in lower case.
pub open spec fn ascii_lower(bytes: Seq<u8>) -> Seq<u8> {
    Seq::new(bytes.len(), |i: int| spec_ascii_lower(bytes[i]))
}

/// Whether `value` is `expected`, which holds no upper-case letter, but for the case of its
/// ASCII letters.
pub fn is_ignoring_case(value: &[u8], expected: &[u8]) -> (same: bool)
    ensures
        same == (ascii_lower(value@) == expected@),
{
    if value.len() != expected.len() {
        return false;
    }
    let mut at: usize = 0;
    while at < value.len()
        invariant
            at <= value@.len(),
            value@.len() == expected@.len(),
            forall|i: int| 0 <= i < at ==> spec_ascii_lower(value@[i]) == expected@[i],
        decreases value@.len() - at,
    {
        let byte = value[at];
        let lower: u8 = if 0x41 <= byte && byte <= 0x5a {
            byte + 0x20
        } else {
            byte
        };
        if lower != expected[at] {
            return false;
        }
        at = at + 1;
    }
    assert(ascii_lower(value@) =~= expected@);
    true
}

/// Whether the value of an `Upgrade` header asks for this protocol.
pub open spec fn upgrade_value_ok(value: Seq<u8>) -> bool {
    ascii_lower(value) == WEBSOCKET@ || ascii_lower(value) == DERP@
}

/// Whether the value of a `Connection` header asks for an upgrade.
pub open spec fn connection_value_ok(value: Seq<u8>) -> bool {
    ascii_lower(value) == UPGRADE@
}

/// What is wrong with one header, if anything.
pub open spec fn header_fault(header: (Seq<u8>, Seq<u8>)) -> Option<RelayError> {
    if header.0 == UPGRADE_NAME@ && !upgrade_value_ok(header.1) {
        Some(RelayError::BadUpgradeHeader)
    } else if header.0 == CONNECTION_NAME@ && !connection_value_ok(header.1) {
        Some(RelayError::BadConnectionHeader)
    } else {
        None
    }
}

/// What is wrong with the first of `headers` that has something wrong, if any has.
pub open spec fn first_fault(headers: Seq<(Seq<u8>, Seq<u8>)>) -> Option<RelayError>
    decreases headers.len(),
{
    if headers.len() == 0 {
        None
    } else {
        match first_fault(headers.drop_last()) {
            Some(fault) => Some(fault),
            None => header_fault(headers.last()),
        }
    }
}

/// Whether one of `headers` has this name.
pub open spec fn has_header(headers: Seq<(Seq<u8>, Seq<u8>)>, name: Seq<u8>) -> bool {
    exists|i: int| 0 <= i < headers.len() && (#[trigger] headers[i]).0 == name
}

/// Whether `headers` ask for the upgrade to this protocol: there is an `Upgrade` header and
/// a `Connection` header, and each such header has a value that asks for it.
pub open spec fn headers_verdict(headers: Seq<(Seq<u8>, Seq<u8>)>) -> Result<(), RelayError> {
    match first_fault(headers) {
        Some(fault) => Err(fault),
        None => if !has_header(headers, UPGRADE_NAME@) {
            Err(RelayError::BadUpgradeHeader)
        } else if !has_header(headers, CONNECTION_NAME@) {
            Err(RelayError::BadConnectionHeader)
        } else {
            Ok(())
        },
    }
}

/// Whether `headers` ask for the upgrade to this protocol.
pub fn validate_headers(headers: &[Header]) -> (r: Result<(), RelayError>)
    ensures
        r == headers_verdict(header_views(headers@)),
{
    let ghost views = header_views(headers@);
    let mut upgrade_seen = false;
    let mut connection_seen = false;
    let mut at: usize = 0;
    while at < headers.len()
        invariant
            at <= headers@.len(),
            views == header_views(headers@),
            first_fault(views.take(at as int)) is None,
            upgrade_seen == has_header(views.take(at as int), UPGRADE_NAME@),
            connection_seen == has_header(views.take(at as int), CONNECTION_NAME@),
        decreases headers@.len() - at,
    {
        let header = &headers[at];
        let ghost before = views.take(at as int);
        let ghost next = views.take(at + 1);
        proof {
            assert(next.drop_last() =~= before);
            lemma_first_fault_stays(views, at + 1);
            assert forall|name: Seq<u8>| has_header(next, name) == (has_header(before, name)
                || header@.0 == name) by {
                if has_header(before, name) {
                    let i = choose|i: int| 0 <= i < before.len() && (#[trigger] before[i]).0 == name;
                    assert(next[i].0 == name);
                }
                if header@.0 == name {
                    assert(next[at as int].0 == name);
                }
                if has_header(next, name) {
                    let i = choose|i: int| 0 <= i < next.len() && (#[trigger] next[i]).0 == name;
                    if i < at {
                        assert(before[i].0 == name);
                    }
                }
            }
        }
        if same_bytes(header.name.as_slice(), UPGRADE_NAME.as_slice()) {
            upgrade_seen = true;
            if !(is_ignoring_case(header.value.as_slice(), WEBSOCKET.as_slice())
                || is_ignoring_case(header.value.as_slice(), DERP.as_slice())) {
                return Err(RelayError::BadUpgradeHeader);
            }
        }
        if same_bytes(header.name.as_slice(), CONNECTION_NAME.as_slice()) {
            connection_seen = true;
            if !is_ignoring_case(header.value.as_slice(), UPGRADE.as_slice()) {
                return Err(RelayError::BadConnectionHeader);
            }
        }
        at = at + 1;
    }
    assert(views.take(at as int) =~= views);
    if !upgrade_seen {
        Err(RelayError::BadUpgradeHeader)
    } else if !connection_seen {
        Err(RelayError::BadConnectionHeader)
    } else {
        Ok(())
    }
}

/// A fault among the first `count` headers is the first fault of them all.
pub proof fn lemma_first_fault_stays(headers: Seq<(Seq<u8>, Seq<u8>)>, count: int)
    requires
        0 <= count <= headers.len(),
    ensures
        first_fault(headers.take(count)) is Some ==> first_fault(headers) == first_fault(
            headers.take(count),
        ),
    decreases headers.len() - count,
{
    if count < headers.len() {
        lemma_first_fault_stays(headers, count + 1);
        assert(headers.take(count + 1).drop_last() =~= headers.take(count));
    } else {
        assert(headers.take(count) =~= headers);
    }
}

/// What becomes of a connection whose first read brought `len` bytes that the HTTP parser
/// read as `parsed`.
pub open spec fn upgrade_verdict(
    len: nat,
    parsed: Option<Option<(nat, Seq<(Seq<u8>, Seq<u8>)>)>>,
) -> Result<(), RelayError> {
    if len == 0 {
        Err(RelayError::EmptyUpgrade)
    } else if len >= UPGRADE_MSG_SIZE {
        Err(RelayError::UpgradeTooBig)
    } else {
        match parsed {
            None => Err(RelayError::MalformedHttp),
            Some(None) => Err(RelayError::PartialHttp),
            Some(Some((_, headers))) => headers_verdict(headers),
        }
    }
}

/// What to answer to a first read of `len` bytes that the HTTP parser read as `parsed`,
/// where `None` stands for bytes that are no HTTP request: the bytes to send, or why the
/// connection is closed without sending any.
pub fn answer_upgrade(len: usize, parsed: Option<HttpHead>) -> (r: Result<Vec<u8>, RelayError>)
    ensures
        match upgrade_verdict(
            len as nat,
            match parsed {
                Some(head) => Some(head.model()),
                None => None,
            },
        ) {
            Ok(()) => r matches Ok(answer) && answer@ == HTTP_OK@,
            Err(fault) => r matches Err(e) && e == fault,
        },
{
    if len == 0 {
        return Err(RelayError::EmptyUpgrade);
    }
    if len >= UPGRADE_MSG_SIZE {
        return Err(RelayError::UpgradeTooBig);
    }
    match parsed {
        None => Err(RelayError::MalformedHttp),
        Some(HttpHead::Partial) => Err(RelayError::PartialHttp),
        Some(HttpHead::Complete { body_start, headers }) => {
            match validate_headers(headers.as_slice()) {
                Ok(()) => Ok(vstd::slice::slice_to_vec(HTTP_OK.as_slice())),
                Err(fault) => Err(fault),
            }
        },
    }
}

/// The server's side of the HTTP upgrade: what to answer to the first read of a connection,
/// or why the connection is closed without an answer.
pub fn finalize_http_phase(first_read: &[u8]) -> (r: Result<Vec<u8>, RelayError>)
    ensures
        match upgrade_verdict(first_read@.len(), httparse_request(first_read@)) {
            Ok(()) => r matches Ok(answer) && answer@ == HTTP_OK@,
            Err(fault) => r matches Err(e) && e == fault,
        },
{
    let len = first_read.len();
    if len == 0 || len >= UPGRADE_MSG_SIZE {
        return answer_upgrade(len, None);
    }
    match parse_request(first_read) {
        Ok(head) => answer_upgrade(len, Some(head)),
        Err(_) => answer_upgrade(len, None),
    }
}

/// The upgrade request of a client of this version on this operating system.
pub open spec fn upgrade_request(version: Seq<u8>, os: Seq<u8>) -> Seq<u8> {
    UPGRADE_REQUEST_HEAD@ + version + seq![0x20u8] + os + UPGRADE_REQUEST_TAIL@
}

/// The client's side of the HTTP upgrade: the request to send.
pub fn write_upgrade_request(version: &str, os: &str) -> (request: Vec<u8>)
    ensures
        request@ == upgrade_request(version.spec_bytes(), os.spec_bytes()),
{
    let mut request: Vec<u8> = Vec::new();
    request.extend_from_slice(UPGRADE_REQUEST_HEAD.as_slice());
    request.extend_from_slice(version.as_bytes());
    request.push(0x20u8);
    request.extend_from_slice(os.as_bytes());
    request.extend_from_slice(UPGRADE_REQUEST_TAIL.as_slice());
    request
}

/// What is left of a read of `data` that the HTTP parser read as `parsed`, once the response
/// is taken off its front.
pub open spec fn leftovers_verdict(
    data: Seq<u8>,
    parsed: Option<Option<(nat, Seq<(Seq<u8>, Seq<u8>)>)>>,
) -> Result<Seq<u8>, RelayError> {
    match parsed {
        None => Err(RelayError::MalformedHttp),
        Some(None) => Err(RelayError::PartialHttp),
        Some(Some((body_start, _))) => if body_start <= data.len() {
            Ok(data.skip(body_start as int))
        } else {
            Err(RelayError::MalformedHttp)
        },
    }
}

/// The bytes of `data` behind the HTTP response that the parser read as `parsed`, where
/// `None` stands for bytes that are no HTTP response. They belong to the frame stream.
pub fn take_leftovers(data: &[u8], parsed: Option<HttpHead>) -> (r: Result<Vec<u8>, RelayError>)
    ensures
        match leftovers_verdict(
            data@,
            match parsed {
                Some(head) => Some(head.model()),
                None => None,
            },
        ) {
            Ok(rest) => r matches Ok(leftovers) && leftovers@ == rest,
            Err(fault) => r matches Err(e) && e == fault,
        },
{
    match parsed {
        None => Err(RelayError::MalformedHttp),
        Some(HttpHead::Partial) => Err(RelayError::PartialHttp),
        Some(HttpHead::Complete { body_start, headers }) => {
            if body_start <= data.len() {
                let rest = vstd::slice::slice_subrange(data, body_start, data.len());
                Ok(vstd::slice::slice_to_vec(rest))
            } else {
                Err(RelayError::MalformedHttp)
            }
        },
    }
}

/// The client's side of the HTTP upgrade, once the answer is read: the bytes that came with
/// the answer and belong to the frame stream, or why the connection is closed.
pub fn connect_http(data: &[u8]) -> (r: Result<Vec<u8>, RelayError>)
    ensures
        match leftovers_verdict(data@, httparse_response(data@)) {
            Ok(rest) => r matches Ok(leftovers) && leftovers@ == rest,
            Err(fault) => r matches Err(e) && e == fault,
        },
{
    match parse_response(data) {
        Ok(head) => take_leftovers(data, Some(head)),
        Err(_) => take_leftovers(data, None),
    }
}

} // verus!
