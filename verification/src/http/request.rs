//! HTTP methods and requests.

use vstd::prelude::*;
use crate::strmap::StrMap;
use crate::text::{spec_to_lowercase, spec_to_uppercase};

verus! {

/// An HTTP request method.
#[derive(Debug, Clone)]
pub enum Method {
    Get,
    Post,
    Put,
    Patch,
    Delete,
    Head,
    Options,
    Trace,
    Connect,
    Other(String),
}

/// Two methods are the same when they are the same variant and, for
/// `Other`, hold the same text.
impl View for Method {
    type V = (u8, Seq<char>);

    open spec fn view(&self) -> (u8, Seq<char>) {
        match self {
            Method::Get => (0, Seq::empty()),
            Method::Post => (1, Seq::empty()),
            Method::Put => (2, Seq::empty()),
            Method::Patch => (3, Seq::empty()),
            Method::Delete => (4, Seq::empty()),
            Method::Head => (5, Seq::empty()),
            Method::Options => (6, Seq::empty()),
            Method::Trace => (7, Seq::empty()),
            Method::Connect => (8, Seq::empty()),
            Method::Other(s) => (9, s@),
        }
    }
}

/// The name of a method: its upper-case token, or the held text for `Other`.
pub open spec fn method_name(m: (u8, Seq<char>)) -> Seq<char> {
    if m.0 == 0 {
        "GET"@
    } else if m.0 == 1 {
        "POST"@
    } else if m.0 == 2 {
        "PUT"@
    } else if m.0 == 3 {
        "PATCH"@
    } else if m.0 == 4 {
        "DELETE"@
    } else if m.0 == 5 {
        "HEAD"@
    } else if m.0 == 6 {
        "OPTIONS"@
    } else if m.0 == 7 {
        "TRACE"@
    } else if m.0 == 8 {
        "CONNECT"@
    } else {
        m.1
    }
}

/// The method named by an upper-case token: one of the nine known methods,
/// or `Other` holding the token.
pub open spec fn method_of_token(u: Seq<char>) -> (u8, Seq<char>) {
    if u == "GET"@ {
        (0, Seq::empty())
    } else if u == "POST"@ {
        (1, Seq::empty())
    } else if u == "PUT"@ {
        (2, Seq::empty())
    } else if u == "PATCH"@ {
        (3, Seq::empty())
    } else if u == "DELETE"@ {
        (4, Seq::empty())
    } else if u == "HEAD"@ {
        (5, Seq::empty())
    } else if u == "OPTIONS"@ {
        (6, Seq::empty())
    } else if u == "TRACE"@ {
        (7, Seq::empty())
    } else if u == "CONNECT"@ {
        (8, Seq::empty())
    } else {
        (9, u)
    }
}

impl Method {
    /// Reads a method from its name, ignoring case: the name is upper-cased
    /// and then matched against the nine known methods.
    pub fn from_str(s: &str) -> (m: Method)
        ensures
            m@ == method_of_token(spec_to_uppercase(s@)),
            crate::text::all_ascii(s@) ==> m@ == method_of_token(
                s@.map_values(|c: char| crate::text::ascii_upper_char(c)),
            ),
    {
        let u = crate::text::to_uppercase(s);
        let t = u.as_str();
        if crate::text::str_eq(t, "GET") {
            Method::Get
        } else if crate::text::str_eq(t, "POST") {
            Method::Post
        } else if crate::text::str_eq(t, "PUT") {
            Method::Put
        } else if crate::text::str_eq(t, "PATCH") {
            Method::Patch
        } else if crate::text::str_eq(t, "DELETE") {
            Method::Delete
        } else if crate::text::str_eq(t, "HEAD") {
            Method::Head
        } else if crate::text::str_eq(t, "OPTIONS") {
            Method::Options
        } else if crate::text::str_eq(t, "TRACE") {
            Method::Trace
        } else if crate::text::str_eq(t, "CONNECT") {
            Method::Connect
        } else {
            Method::Other(u)
        }
    }

    /// The name of the method.
    pub fn as_str(&self) -> (r: &str)
        ensures
            r@ == method_name(self@),
    {
        match self {
            Method::Get => "GET",
            Method::Post => "POST",
            Method::Put => "PUT",
            Method::Patch => "PATCH",
            Method::Delete => "DELETE",
            Method::Head => "HEAD",
            Method::Options => "OPTIONS",
            Method::Trace => "TRACE",
            Method::Connect => "CONNECT",
            Method::Other(s) => s.as_str(),
        }
    }

    /// Whether two methods are the same.
    pub fn same(&self, other: &Method) -> (b: bool)
        ensures
            b == (self@ == other@),
    {
        match (self, other) {
            (Method::Get, Method::Get) => true,
            (Method::Post, Method::Post) => true,
            (Method::Put, Method::Put) => true,
            (Method::Patch, Method::Patch) => true,
            (Method::Delete, Method::Delete) => true,
            (Method::Head, Method::Head) => true,
            (Method::Options, Method::Options) => true,
            (Method::Trace, Method::Trace) => true,
            (Method::Connect, Method::Connect) => true,
            (Method::Other(a), Method::Other(b)) => crate::text::str_eq(a.as_str(), b.as_str()),
            _ => false,
        }
    }

    /// A copy of the method.
    pub fn duplicate(&self) -> (m: Method)
        ensures
            m@ == self@,
    {
        match self {
            Method::Get => Method::Get,
            Method::Post => Method::Post,
            Method::Put => Method::Put,
            Method::Patch => Method::Patch,
            Method::Delete => Method::Delete,
            Method::Head => Method::Head,
            Method::Options => Method::Options,
            Method::Trace => Method::Trace,
            Method::Connect => Method::Connect,
            Method::Other(s) => Method::Other(s.clone()),
        }
    }
}

/// Reading the name of any of the nine known methods gives that method
/// back, `Method::from_str(m.as_str())` is `m`: the name (`method_name`,
/// what `as_str` returns) is ASCII, so `from_str` upper-cases it by the ASCII
/// rule, which leaves it as it is, and `method_of_token` of it is `m`.
pub proof fn law_method_name_round_trip(m: Method)
    requires
        !(m is Other),
    ensures
        crate::text::all_ascii(method_name(m@)),
        method_of_token(method_name(m@).map_values(|c: char| crate::text::ascii_upper_char(c)))
            == m@,
{
    reveal_strlit("GET");
    reveal_strlit("POST");
    reveal_strlit("PUT");
    reveal_strlit("PATCH");
    reveal_strlit("DELETE");
    reveal_strlit("HEAD");
    reveal_strlit("OPTIONS");
    reveal_strlit("TRACE");
    reveal_strlit("CONNECT");
    let n = method_name(m@);
    assert(forall|i: int| 0 <= i < n.len() ==> 'A' <= #[trigger] n[i] <= 'Z');
    lemma_upper_of_upper_token(n);
    assert(n.map_values(|c: char| crate::text::ascii_upper_char(c)) == n);
    match m {
        Method::Get => {},
        Method::Post => { assert(n != "GET"@); },
        Method::Put => {
            assert(n[0] != "GET"@[0]);
            assert(n != "GET"@ && n != "POST"@);
        },
        Method::Patch => { assert(n != "GET"@ && n != "POST"@ && n != "PUT"@); },
        Method::Delete => { assert(n != "GET"@ && n != "POST"@ && n != "PUT"@ && n != "PATCH"@); },
        Method::Head => {
            assert(n[0] != "POST"@[0]);
            assert(n != "GET"@ && n != "POST"@ && n != "PUT"@ && n != "PATCH"@ && n != "DELETE"@);
        },
        Method::Options => {
            assert(n != "GET"@ && n != "POST"@ && n != "PUT"@ && n != "PATCH"@ && n != "DELETE"@
                && n != "HEAD"@);
        },
        Method::Trace => {
            assert(n[0] != "PATCH"@[0]);
            assert(n != "GET"@ && n != "POST"@ && n != "PUT"@ && n != "PATCH"@ && n != "DELETE"@
                && n != "HEAD"@ && n != "OPTIONS"@);
        },
        Method::Connect => {
            assert(n[0] != "OPTIONS"@[0]);
            assert(n != "GET"@ && n != "POST"@ && n != "PUT"@ && n != "PATCH"@ && n != "DELETE"@
                && n != "HEAD"@ && n != "OPTIONS"@ && n != "TRACE"@);
        },
        Method::Other(_) => {},
    }
}

proof fn lemma_upper_of_upper_token(n: Seq<char>)
    requires
        crate::text::all_ascii(n),
        forall|i: int| 0 <= i < n.len() ==> 'A' <= #[trigger] n[i] <= 'Z',
    ensures
        n.map_values(|c: char| crate::text::ascii_upper_char(c)) == n,
{
    assert(n.map_values(|c: char| crate::text::ascii_upper_char(c)) =~= n);
}

/// `String::from_utf8`: the text that the bytes encode in UTF-8, when they
/// are valid UTF-8.
#[verifier::external_body]
pub(crate) fn utf8_string(bytes: Vec<u8>) -> (r: Option<String>)
    ensures
        r is Some <==> vstd::utf8::valid_utf8(bytes@),
        r matches Some(s) ==> s@ == vstd::utf8::decode_utf8(bytes@),
{
    String::from_utf8(bytes).ok()
}

/// An HTTP request.
pub struct Request {
    pub method: Method,
    /// The path without its query string, such as `/api/users`.
    pub path: String,
    /// The query string's parameters.
    pub query: StrMap<String>,
    /// The headers; their names are in lower case.
    pub headers: StrMap<String>,
    /// The raw body.
    pub body: Vec<u8>,
    /// The route's parameters, such as the value of `:id`.
    pub params: StrMap<String>,
    /// The client's address.
    pub remote_addr: String,
}

impl Request {
    /// A `GET /` request with nothing else in it.
    pub fn new() -> (r: Request)
        ensures
            r.method == Method::Get,
            r.path@ == "/"@,
            r.query@ == Map::<Seq<char>, Seq<char>>::empty(),
            r.headers@ == Map::<Seq<char>, Seq<char>>::empty(),
            r.body@ == Seq::<u8>::empty(),
            r.params@ == Map::<Seq<char>, Seq<char>>::empty(),
            r.remote_addr@ == Seq::<char>::empty(),
    {
        Request {
            method: Method::Get,
            path: "/".to_string(),
            query: StrMap::new(),
            headers: StrMap::new(),
            body: Vec::new(),
            params: StrMap::new(),
            remote_addr: String::new(),
        }
    }

    /// The header named `key`, whatever its case: the name is looked up in
    /// lower case.
    pub fn header(&self, key: &str) -> (r: Option<&str>)
        ensures
            match r {
                Some(v) => self.headers@.contains_key(spec_to_lowercase(key@))
                    && self.headers@[spec_to_lowercase(key@)] == v@,
                None => !self.headers@.contains_key(spec_to_lowercase(key@)),
            },
            crate::text::all_ascii(key@) ==> match r {
                Some(v) => self.headers@.contains_key(
                    key@.map_values(|c: char| crate::text::ascii_lower_char(c)),
                ) && self.headers@[key@.map_values(|c: char| crate::text::ascii_lower_char(c))]
                    == v@,
                None => !self.headers@.contains_key(
                    key@.map_values(|c: char| crate::text::ascii_lower_char(c)),
                ),
            },
    {
        let k = crate::text::to_lowercase(key);
        match self.headers.get(k.as_str()) {
            Some(v) => Some(v.as_str()),
            None => None,
        }
    }

    /// The query parameter `key`.
    pub fn query(&self, key: &str) -> (r: Option<&str>)
        ensures
            match r {
                Some(v) => self.query@.contains_key(key@) && self.query@[key@] == v@,
                None => !self.query@.contains_key(key@),
            },
    {
        match self.query.get(key) {
            Some(v) => Some(v.as_str()),
            None => None,
        }
    }

    /// The route parameter `key`.
    pub fn param(&self, key: &str) -> (r: Option<&str>)
        ensures
            match r {
                Some(v) => self.params@.contains_key(key@) && self.params@[key@] == v@,
                None => !self.params@.contains_key(key@),
            },
    {
        match self.params.get(key) {
            Some(v) => Some(v.as_str()),
            None => None,
        }
    }

    /// The `content-type` header.
    pub fn content_type(&self) -> (r: Option<&str>)
        ensures
            match r {
                Some(v) => self.headers@.contains_key("content-type"@)
                    && self.headers@["content-type"@] == v@,
                None => !self.headers@.contains_key("content-type"@),
            },
    {
        proof {
            reveal_strlit("content-type");
            assert("content-type"@.map_values(|c: char| crate::text::ascii_lower_char(c))
                =~= "content-type"@);
        }
        self.header("content-type")
    }

    /// The body as text, when it is valid UTF-8.
    pub fn body_string(&self) -> (r: Option<String>)
        ensures
            r is Some <==> vstd::utf8::valid_utf8(self.body@),
            r matches Some(s) ==> s@ == vstd::utf8::decode_utf8(self.body@),
    {
        utf8_string(self.body.clone())
    }
}

impl Default for Request {
    /// A `GET /` request with nothing else in it.
    fn default() -> (r: Request)
        ensures
            r.method == Method::Get,
            r.path@ == "/"@,
            r.query@ == Map::<Seq<char>, Seq<char>>::empty(),
            r.headers@ == Map::<Seq<char>, Seq<char>>::empty(),
            r.body@ == Seq::<u8>::empty(),
            r.params@ == Map::<Seq<char>, Seq<char>>::empty(),
            r.remote_addr@ == Seq::<char>::empty(),
    {
        Request::new()
    }
}

} // verus!
