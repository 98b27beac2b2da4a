use vstd::prelude::*;

verus! {

/// Status code of a redirect that asks the client to fetch another page.
pub const SEE_OTHER: u16 = 303;

/// Status code of a request the client got wrong.
pub const BAD_REQUEST: u16 = 400;

/// Status code of a request without valid credentials.
pub const UNAUTHORIZED: u16 = 401;

/// Status code of a failure on the server side.
pub const INTERNAL_SERVER_ERROR: u16 = 500;

/// Status code of a plain success.
pub const OK: u16 = 200;

/// One header line of a response.
#[derive(Debug, Clone, PartialEq, Eq)]
pub struct HeaderPair {
    pub name: String,
    pub value: String,
}

impl View for HeaderPair {
    type V = (Seq<char>, Seq<char>);

    open spec fn view(&self) -> (Seq<char>, Seq<char>) {
        (self.name@, self.value@)
    }
}

impl HeaderPair {
    /// A copy that owns its own strings.
    pub fn duplicate(&self) -> (copy: HeaderPair)
        ensures
            copy@ == self@,
    {
        HeaderPair { name: self.name.clone(), value: self.value.clone() }
    }
}

/// What a response holds, as plain mathematical values.
#[verifier::ext_equal]
pub struct ResponseView {
    pub status_code: u16,
    pub headers: Seq<(Seq<char>, Seq<char>)>,
    pub body: Seq<u8>,
}

/// A response as it is handed to the client and as it is stored for replay:
/// a status code, the header lines in order, and the body bytes.
#[derive(Debug, Clone, PartialEq, Eq)]
pub struct Response {
    pub status_code: u16,
    pub headers: Vec<HeaderPair>,
    pub body: Vec<u8>,
}

impl View for Response {
    type V = ResponseView;

    open spec fn view(&self) -> ResponseView {
        ResponseView {
            status_code: self.status_code,
            headers: self.headers@.map_values(|h: HeaderPair| h@),
            body: self.body@,
        }
    }
}

/// The redirect to `route`: status 303 with a single `Location` header and no body.
pub open spec fn see_other_view(route: Seq<char>) -> ResponseView {
    ResponseView {
        status_code: SEE_OTHER,
        headers: seq![("Location"@, route)],
        body: Seq::<u8>::empty(),
    }
}

/// A response with the given status, no header and no body.
pub open spec fn bare_view(status_code: u16) -> ResponseView {
    ResponseView {
        status_code,
        headers: Seq::<(Seq<char>, Seq<char>)>::empty(),
        body: Seq::<u8>::empty(),
    }
}

impl Response {
    /// A response with the given status, no header and no body.
    pub fn new(status_code: u16) -> (response: Response)
        ensures
            response@ == bare_view(status_code),
    {
        let response = Response { status_code, headers: Vec::new(), body: Vec::new() };
        assert(response@.headers =~= Seq::<(Seq<char>, Seq<char>)>::empty());
        response
    }

    /// A copy that owns its own headers and body and equals this response in
    /// status, headers and body.
    pub fn duplicate(&self) -> (copy: Response)
        ensures
            copy@ == self@,
    {
        let mut headers: Vec<HeaderPair> = Vec::new();
        let mut i: usize = 0;
        while i < self.headers.len()
            invariant
                i <= self.headers.len(),
                headers.len() == i,
                forall|j: int| 0 <= j < i ==> headers[j]@ == self.headers[j]@,
            decreases self.headers.len() - i,
        {
            headers.push(self.headers[i].duplicate());
            i += 1;
        }
        let mut body: Vec<u8> = Vec::new();
        let mut k: usize = 0;
        while k < self.body.len()
            invariant
                k <= self.body.len(),
                body.len() == k,
                forall|j: int| 0 <= j < k ==> body[j] == self.body[j],
            decreases self.body.len() - k,
        {
            body.push(self.body[k]);
            k += 1;
        }
        let copy = Response { status_code: self.status_code, headers, body };
        assert(copy@.headers =~= self@.headers);
        assert(copy@.body =~= self@.body);
        copy
    }
}

/// The redirect to `route`: status 303 with a single `Location` header and no body.
pub fn see_other(route: &str) -> (response: Response)
    ensures
        response@ == see_other_view(route@),
{
    let mut headers: Vec<HeaderPair> = Vec::new();
    headers.push(HeaderPair { name: "Location".to_owned(), value: route.to_owned() });
    let response = Response { status_code: SEE_OTHER, headers, body: Vec::new() };
    assert(response@.headers =~= seq![("Location"@, route@)]);
    response
}

} // verus!
