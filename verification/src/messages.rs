//! The protocol's own message types: status codes, statuses, key-value metadata,
//! requests and responses.

use vstd::prelude::*;

verus! {

/// RPC status codes carried in a [`Status`].
#[allow(non_camel_case_types)]
#[derive(Debug, Clone, Copy, PartialEq, Eq, Structural)]
pub enum Code {
    OK,
    CANCELLED,
    UNKNOWN,
    INVALID_ARGUMENT,
    DEADLINE_EXCEEDED,
    NOT_FOUND,
    ALREADY_EXISTS,
    PERMISSION_DENIED,
    RESOURCE_EXHAUSTED,
    FAILED_PRECONDITION,
    ABORTED,
    OUT_OF_RANGE,
    UNIMPLEMENTED,
    INTERNAL,
    UNAVAILABLE,
    DATA_LOSS,
    UNAUTHENTICATED,
}

/// The wire number of a status code.
pub open spec fn code_number(c: Code) -> i32 {
    match c {
        Code::OK => 0,
        Code::CANCELLED => 1,
        Code::UNKNOWN => 2,
        Code::INVALID_ARGUMENT => 3,
        Code::DEADLINE_EXCEEDED => 4,
        Code::NOT_FOUND => 5,
        Code::ALREADY_EXISTS => 6,
        Code::PERMISSION_DENIED => 7,
        Code::RESOURCE_EXHAUSTED => 8,
        Code::FAILED_PRECONDITION => 9,
        Code::ABORTED => 10,
        Code::OUT_OF_RANGE => 11,
        Code::UNIMPLEMENTED => 12,
        Code::INTERNAL => 13,
        Code::UNAVAILABLE => 14,
        Code::DATA_LOSS => 15,
        Code::UNAUTHENTICATED => 16,
    }
}

/// The status code that a wire number names; unknown numbers read as `OK`.
pub open spec fn code_of_number(n: i32) -> Code {
    if n == 1 { Code::CANCELLED }
    else if n == 2 { Code::UNKNOWN }
    else if n == 3 { Code::INVALID_ARGUMENT }
    else if n == 4 { Code::DEADLINE_EXCEEDED }
    else if n == 5 { Code::NOT_FOUND }
    else if n == 6 { Code::ALREADY_EXISTS }
    else if n == 7 { Code::PERMISSION_DENIED }
    else if n == 8 { Code::RESOURCE_EXHAUSTED }
    else if n == 9 { Code::FAILED_PRECONDITION }
    else if n == 10 { Code::ABORTED }
    else if n == 11 { Code::OUT_OF_RANGE }
    else if n == 12 { Code::UNIMPLEMENTED }
    else if n == 13 { Code::INTERNAL }
    else if n == 14 { Code::UNAVAILABLE }
    else if n == 15 { Code::DATA_LOSS }
    else if n == 16 { Code::UNAUTHENTICATED }
    else { Code::OK }
}

/// Reading back the number of a code gives the code.
pub proof fn lemma_code_number_roundtrip(c: Code)
    ensures
        code_of_number(code_number(c)) == c,
        0 <= code_number(c) <= 16,
{
}

/// The wire numbers of the status codes, as `google.rpc.Code` assigns them,
/// and the code each number names; every other number names `OK`.
pub proof fn lemma_code_table()
    ensures
        code_number(Code::OK) == 0 && code_of_number(0) == Code::OK,
        code_number(Code::CANCELLED) == 1 && code_of_number(1) == Code::CANCELLED,
        code_number(Code::UNKNOWN) == 2 && code_of_number(2) == Code::UNKNOWN,
        code_number(Code::INVALID_ARGUMENT) == 3 && code_of_number(3) == Code::INVALID_ARGUMENT,
        code_number(Code::DEADLINE_EXCEEDED) == 4 && code_of_number(4) == Code::DEADLINE_EXCEEDED,
        code_number(Code::NOT_FOUND) == 5 && code_of_number(5) == Code::NOT_FOUND,
        code_number(Code::ALREADY_EXISTS) == 6 && code_of_number(6) == Code::ALREADY_EXISTS,
        code_number(Code::PERMISSION_DENIED) == 7 && code_of_number(7) == Code::PERMISSION_DENIED,
        code_number(Code::RESOURCE_EXHAUSTED) == 8 && code_of_number(8) == Code::RESOURCE_EXHAUSTED,
        code_number(Code::FAILED_PRECONDITION) == 9 && code_of_number(9) == Code::FAILED_PRECONDITION,
        code_number(Code::ABORTED) == 10 && code_of_number(10) == Code::ABORTED,
        code_number(Code::OUT_OF_RANGE) == 11 && code_of_number(11) == Code::OUT_OF_RANGE,
        code_number(Code::UNIMPLEMENTED) == 12 && code_of_number(12) == Code::UNIMPLEMENTED,
        code_number(Code::INTERNAL) == 13 && code_of_number(13) == Code::INTERNAL,
        code_number(Code::UNAVAILABLE) == 14 && code_of_number(14) == Code::UNAVAILABLE,
        code_number(Code::DATA_LOSS) == 15 && code_of_number(15) == Code::DATA_LOSS,
        code_number(Code::UNAUTHENTICATED) == 16 && code_of_number(16) == Code::UNAUTHENTICATED,
        forall|n: i32| (n < 0 || n > 16) ==> code_of_number(n) == Code::OK,
{
}

impl Code {
    /// The wire number of this code.
    pub fn value(&self) -> (n: i32)
        ensures
            n == code_number(*self),
    {
        match self {
            Code::OK => 0,
            Code::CANCELLED => 1,
            Code::UNKNOWN => 2,
            Code::INVALID_ARGUMENT => 3,
            Code::DEADLINE_EXCEEDED => 4,
            Code::NOT_FOUND => 5,
            Code::ALREADY_EXISTS => 6,
            Code::PERMISSION_DENIED => 7,
            Code::RESOURCE_EXHAUSTED => 8,
            Code::FAILED_PRECONDITION => 9,
            Code::ABORTED => 10,
            Code::OUT_OF_RANGE => 11,
            Code::UNIMPLEMENTED => 12,
            Code::INTERNAL => 13,
            Code::UNAVAILABLE => 14,
            Code::DATA_LOSS => 15,
            Code::UNAUTHENTICATED => 16,
        }
    }

    /// The code a wire number names, with unknown numbers read as `OK`.
    pub fn from_number(n: i32) -> (c: Code)
        ensures
            c == code_of_number(n),
    {
        if n == 1 { Code::CANCELLED }
        else if n == 2 { Code::UNKNOWN }
        else if n == 3 { Code::INVALID_ARGUMENT }
        else if n == 4 { Code::DEADLINE_EXCEEDED }
        else if n == 5 { Code::NOT_FOUND }
        else if n == 6 { Code::ALREADY_EXISTS }
        else if n == 7 { Code::PERMISSION_DENIED }
        else if n == 8 { Code::RESOURCE_EXHAUSTED }
        else if n == 9 { Code::FAILED_PRECONDITION }
        else if n == 10 { Code::ABORTED }
        else if n == 11 { Code::OUT_OF_RANGE }
        else if n == 12 { Code::UNIMPLEMENTED }
        else if n == 13 { Code::INTERNAL }
        else if n == 14 { Code::UNAVAILABLE }
        else if n == 15 { Code::DATA_LOSS }
        else if n == 16 { Code::UNAUTHENTICATED }
        else { Code::OK }
    }
}

/// An arbitrary serialized message with its type URL, carried in status details.
#[derive(Debug, PartialEq, Eq)]
pub struct Any {
    /// The type URL that identifies the serialized message.
    pub type_url: String,
    /// The serialized message.
    pub value: Vec<u8>,
}

/// The mathematical content of an [`Any`].
pub struct AnyView {
    pub type_url: Seq<char>,
    pub value: Seq<u8>,
}

/// A copy of a byte vector.
pub fn copy_bytes(v: &Vec<u8>) -> (r: Vec<u8>)
    ensures
        r@ == v@,
{
    let r = v.clone();
    assert(r@ =~= v@);
    r
}

impl Clone for Any {
    fn clone(&self) -> (r: Self)
        ensures
            r@ == self@,
    {
        Any { type_url: self.type_url.clone(), value: copy_bytes(&self.value) }
    }
}

impl View for Any {
    type V = AnyView;

    open spec fn view(&self) -> AnyView {
        AnyView { type_url: self.type_url@, value: self.value@ }
    }
}

/// An RPC status: a code, a message and optional details.
#[derive(Debug, PartialEq, Eq)]
pub struct Status {
    /// The wire number of the status code.
    pub code: i32,
    /// A human-readable message.
    pub message: String,
    /// Additional structured details.
    pub details: Vec<Any>,
}

/// The mathematical content of a [`Status`].
pub struct StatusView {
    pub code: i32,
    pub message: Seq<char>,
    pub details: Seq<AnyView>,
}

impl View for Status {
    type V = StatusView;

    open spec fn view(&self) -> StatusView {
        StatusView {
            code: self.code,
            message: self.message@,
            details: self.details@.map_values(|a: Any| a@),
        }
    }
}

/// A status with the given code and message and no details.
pub open spec fn status_view(c: Code, msg: Seq<char>) -> StatusView {
    StatusView { code: code_number(c), message: msg, details: Seq::empty() }
}

/// A copy of a list of details.
fn copy_details(v: &Vec<Any>) -> (r: Vec<Any>)
    ensures
        r@.map_values(|a: Any| a@) == v@.map_values(|a: Any| a@),
{
    let mut r: Vec<Any> = Vec::new();
    let mut i: usize = 0;
    while i < v.len()
        invariant
            i <= v.len(),
            r@.len() == i,
            forall|j: int| 0 <= j < i ==> (#[trigger] r@[j])@ == v@[j]@,
        decreases v.len() - i,
    {
        r.push(v[i].clone());
        i = i + 1;
    }
    assert(r@.map_values(|a: Any| a@) =~= v@.map_values(|a: Any| a@));
    r
}

impl Clone for Status {
    fn clone(&self) -> (r: Self)
        ensures
            r@ == self@,
    {
        Status { code: self.code, message: self.message.clone(), details: copy_details(&self.details) }
    }
}

impl Status {
    /// An `OK` status with an empty message and no details.
    pub fn new() -> (s: Status)
        ensures
            s@ == status_view(Code::OK, Seq::empty()),
    {
        let s = Status { code: 0, message: String::new(), details: Vec::new() };
        assert(s@.details =~= Seq::empty());
        s
    }

    /// Sets the status code.
    pub fn set_code(&mut self, c: Code)
        ensures
            final(self)@ == (StatusView { code: code_number(c), ..old(self)@ }),
    {
        self.code = c.value();
    }

    /// Sets the status message.
    pub fn set_message(&mut self, msg: String)
        ensures
            final(self)@ == (StatusView { message: msg@, ..old(self)@ }),
    {
        self.message = msg;
    }

    /// The status code; an unknown wire number reads as `OK`.
    pub fn code(&self) -> (c: Code)
        ensures
            c == code_of_number(self.code),
    {
        Code::from_number(self.code)
    }
}

/// One metadata entry: a key and a single value.
#[derive(Debug, PartialEq, Eq)]
pub struct KeyValue {
    /// Metadata key.
    pub key: String,
    /// Metadata value.
    pub value: String,
}

impl Clone for KeyValue {
    fn clone(&self) -> (r: Self)
        ensures
            r@ == self@,
    {
        KeyValue { key: self.key.clone(), value: self.value.clone() }
    }
}

impl View for KeyValue {
    type V = (Seq<char>, Seq<char>);

    open spec fn view(&self) -> (Seq<char>, Seq<char>) {
        (self.key@, self.value@)
    }
}

/// An RPC request: the target service and method, the encoded argument,
/// a timeout and metadata.
#[derive(Debug, PartialEq, Eq)]
pub struct Request {
    /// Fully qualified service name.
    pub service: String,
    /// Method name within the service.
    pub method: String,
    /// Encoded method argument.
    pub payload: Vec<u8>,
    /// Timeout in nanoseconds, or zero for none.
    pub timeout_nano: i64,
    /// Metadata entries; repeated keys are allowed.
    pub metadata: Vec<KeyValue>,
}

/// A copy of a list of metadata entries.
fn copy_metadata(v: &Vec<KeyValue>) -> (r: Vec<KeyValue>)
    ensures
        r@.map_values(|kv: KeyValue| kv@) == v@.map_values(|kv: KeyValue| kv@),
{
    let mut r: Vec<KeyValue> = Vec::new();
    let mut i: usize = 0;
    while i < v.len()
        invariant
            i <= v.len(),
            r@.len() == i,
            forall|j: int| 0 <= j < i ==> (#[trigger] r@[j])@ == v@[j]@,
        decreases v.len() - i,
    {
        r.push(v[i].clone());
        i = i + 1;
    }
    assert(r@.map_values(|kv: KeyValue| kv@) =~= v@.map_values(|kv: KeyValue| kv@));
    r
}

impl Clone for Request {
    fn clone(&self) -> (r: Self)
        ensures
            r@ == self@,
    {
        Request {
            service: self.service.clone(),
            method: self.method.clone(),
            payload: copy_bytes(&self.payload),
            timeout_nano: self.timeout_nano,
            metadata: copy_metadata(&self.metadata),
        }
    }
}

/// The mathematical content of a [`Request`].
pub struct RequestView {
    pub service: Seq<char>,
    pub method: Seq<char>,
    pub payload: Seq<u8>,
    pub timeout_nano: i64,
    pub metadata: Seq<(Seq<char>, Seq<char>)>,
}

impl View for Request {
    type V = RequestView;

    open spec fn view(&self) -> RequestView {
        RequestView {
            service: self.service@,
            method: self.method@,
            payload: self.payload@,
            timeout_nano: self.timeout_nano,
            metadata: self.metadata@.map_values(|kv: KeyValue| kv@),
        }
    }
}

/// An RPC response: an optional status and the encoded result.
#[derive(Debug, PartialEq, Eq)]
pub struct Response {
    /// The status, when one is present.
    pub status: Option<Status>,
    /// Encoded method result.
    pub payload: Vec<u8>,
}

/// The mathematical content of a [`Response`].
pub struct ResponseView {
    pub status: Option<StatusView>,
    pub payload: Seq<u8>,
}

impl View for Response {
    type V = ResponseView;

    open spec fn view(&self) -> ResponseView {
        ResponseView {
            status: match self.status {
                Some(s) => Some(s@),
                None => None,
            },
            payload: self.payload@,
        }
    }
}

impl Clone for Response {
    fn clone(&self) -> (r: Self)
        ensures
            r@ == self@,
    {
        let status = match &self.status {
            Some(s) => Some(s.clone()),
            None => None,
        };
        Response { status, payload: copy_bytes(&self.payload) }
    }
}

impl Response {
    /// A response without status or payload.
    pub fn new() -> (r: Response)
        ensures
            r@ == (ResponseView { status: None, payload: Seq::empty() }),
    {
        Response { status: None, payload: Vec::new() }
    }
}

} // verus!
