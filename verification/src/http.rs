//! Requests and replies as values. The caller sends a `Request` with whatever
//! transport it has and hands back a `Reply`.

use crate::Error;
use vstd::prelude::*;
use vstd::string::StringExecFns;

verus! {

pub const API_URL: &'static str = "https://api.somtoday.nl/rest/v1/";

pub const TOKEN_URL: &'static str = "https://inloggen.somtoday.nl/oauth2/token";

/// How a request is sent.
#[derive(Clone, Copy, Debug, PartialEq, Eq)]
pub enum Method {
    Get,
    Post,
}

/// The resources of the service.
#[derive(Clone, Copy, Debug, PartialEq, Eq)]
pub enum Endpoint {
    Token,
    Students,
    Subjects,
    Grades,
    Schedule,
    HomeworkAppointments,
    HomeworkDays,
}

impl Endpoint {
    /// The address of the resource. For the grades it ends in a slash, and
    /// the student's identifier follows.
    pub open spec fn spec_url(self) -> Seq<char> {
        match self {
            Endpoint::Token => TOKEN_URL@,
            Endpoint::Students => API_URL@ + "leerlingen"@,
            Endpoint::Subjects => API_URL@ + "vakken"@,
            Endpoint::Grades => API_URL@ + "resultaten/huidigVoorLeerling/"@,
            Endpoint::Schedule => API_URL@ + "afspraken"@,
            Endpoint::HomeworkAppointments => API_URL@ + "studiewijzeritemafspraaktoekenningen"@,
            Endpoint::HomeworkDays => API_URL@ + "studiewijzeritemdagtoekenningen"@,
        }
    }

    /// The address of the resource.
    pub fn url(&self) -> (url: String)
        ensures
            url@ == self.spec_url(),
    {
        let path = match self {
            Endpoint::Token => { return String::from_str(TOKEN_URL); },
            Endpoint::Students => "leerlingen",
            Endpoint::Subjects => "vakken",
            Endpoint::Grades => "resultaten/huidigVoorLeerling/",
            Endpoint::Schedule => "afspraken",
            Endpoint::HomeworkAppointments => "studiewijzeritemafspraaktoekenningen",
            Endpoint::HomeworkDays => "studiewijzeritemdagtoekenningen",
        };
        String::from_str(API_URL).concat(path)
    }
}

/// A named value: a header, a query parameter or a form field.
#[derive(Clone, Debug, PartialEq, Eq)]
pub struct Field {
    pub name: String,
    pub value: String,
}

impl View for Field {
    type V = (Seq<char>, Seq<char>);

    open spec fn view(&self) -> (Seq<char>, Seq<char>) {
        (self.name@, self.value@)
    }
}

impl Field {
    pub fn new(name: &str, value: String) -> (field: Field)
        ensures
            field@ == (name@, value@),
    {
        Field { name: String::from_str(name), value }
    }

    pub fn literal(name: &str, value: &str) -> (field: Field)
        ensures
            field@ == (name@, value@),
    {
        Field { name: String::from_str(name), value: String::from_str(value) }
    }
}

/// Names and values of a list of fields, in order.
pub open spec fn fields_view(fields: Seq<Field>) -> Seq<(Seq<char>, Seq<char>)> {
    fields.map_values(|f: Field| f@)
}

/// What a request says, with its texts as character sequences.
pub struct RequestView {
    pub method: Method,
    pub url: Seq<char>,
    pub headers: Seq<(Seq<char>, Seq<char>)>,
    pub query: Seq<(Seq<char>, Seq<char>)>,
    pub form: Seq<(Seq<char>, Seq<char>)>,
}

/// A request to be sent: `query` goes into the address, `form` into a
/// form-encoded body.
#[derive(Clone, Debug, PartialEq, Eq)]
pub struct Request {
    pub method: Method,
    pub url: String,
    pub headers: Vec<Field>,
    pub query: Vec<Field>,
    pub form: Vec<Field>,
}

impl View for Request {
    type V = RequestView;

    open spec fn view(&self) -> RequestView {
        RequestView {
            method: self.method,
            url: self.url@,
            headers: fields_view(self.headers@),
            query: fields_view(self.query@),
            form: fields_view(self.form@),
        }
    }
}

/// The headers of every read of a resource: the bearer token, and JSON asked
/// for.
pub open spec fn bearer_headers(token: Seq<char>) -> Seq<(Seq<char>, Seq<char>)> {
    seq![("Authorization"@, "Bearer "@ + token), ("Accept"@, "application/json"@)]
}

/// A read of `url` on behalf of the holder of `token`.
pub open spec fn bearer_get(
    url: Seq<char>,
    token: Seq<char>,
    more_headers: Seq<(Seq<char>, Seq<char>)>,
    query: Seq<(Seq<char>, Seq<char>)>,
) -> RequestView {
    RequestView {
        method: Method::Get,
        url,
        headers: bearer_headers(token) + more_headers,
        query,
        form: Seq::empty(),
    }
}

impl Request {
    /// A read of `url` on behalf of the holder of `token`, with no further
    /// headers and no query.
    pub fn get(url: String, token: &str) -> (request: Request)
        ensures
            request@ == bearer_get(url@, token@, Seq::empty(), Seq::empty()),
    {
        let mut headers: Vec<Field> = Vec::new();
        headers.push(Field::new("Authorization", String::from_str("Bearer ").concat(token)));
        headers.push(Field::literal("Accept", "application/json"));
        let request = Request {
            method: Method::Get,
            url,
            headers,
            query: Vec::new(),
            form: Vec::new(),
        };
        assert(request@.headers =~= bearer_headers(token@) + Seq::empty());
        assert(request@.query =~= Seq::empty());
        assert(request@.form =~= Seq::empty());
        request
    }

    /// Adds a header after those already there.
    pub fn header(self, name: &str, value: String) -> (request: Request)
        ensures
            request@ == (RequestView { headers: self@.headers.push((name@, value@)), ..self@ }),
    {
        let mut request = self;
        request.headers.push(Field::new(name, value));
        assert(request@.headers =~= self@.headers.push((name@, value@)));
        request
    }

    /// Adds a query parameter after those already there.
    pub fn param(self, name: &str, value: String) -> (request: Request)
        ensures
            request@ == (RequestView { query: self@.query.push((name@, value@)), ..self@ }),
    {
        let mut request = self;
        request.query.push(Field::new(name, value));
        assert(request@.query =~= self@.query.push((name@, value@)));
        request
    }
}

/// What came back for a request.
#[derive(Clone, Debug, PartialEq, Eq)]
pub enum Reply<T> {
    /// No HTTP reply came back at all.
    Unreachable,
    /// A reply with this status. `body` is `None` where the body could not be
    /// read as the shape that was expected.
    Status { status: u16, body: Option<T> },
}

/// The body of a reply to a resource call, or the failure that the reply
/// stands for: success takes a status from 200 to 299 and a readable body.
pub open spec fn accepted<T>(endpoint: Endpoint, reply: Reply<T>) -> Result<T, Error> {
    match reply {
        Reply::Unreachable => Err(Error::Api { endpoint, status: None }),
        Reply::Status { status, body } => match body {
            Some(value) if 200 <= status <= 299 => Ok(value),
            _ => Err(Error::Api { endpoint, status: Some(status) }),
        },
    }
}

impl<T> Reply<T> {
    /// The body of a reply to a call of `endpoint`, or the failure that the
    /// reply stands for.
    pub fn accept(self, endpoint: Endpoint) -> (body: Result<T, Error>)
        ensures
            body == accepted(endpoint, self),
    {
        match self {
            Reply::Unreachable => Err(Error::Api { endpoint, status: None }),
            Reply::Status { status, body } => {
                if 200 <= status && status <= 299 {
                    match body {
                        Some(value) => Ok(value),
                        None => Err(Error::Api { endpoint, status: Some(status) }),
                    }
                } else {
                    Err(Error::Api { endpoint, status: Some(status) })
                }
            },
        }
    }
}

} // verus!
