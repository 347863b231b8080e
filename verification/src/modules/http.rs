//! The module that gives scripts an HTTP client: its headers, the method of
//! a request, and the life of a response.

use crate::esm::module::NativeModule;
use crate::text::{names, str_eq};
use reqwest::Method;
use vstd::prelude::*;
use vstd::utf8::*;

verus! {

/// The definition of the module.
#[derive(Debug, Clone, Copy, PartialEq, Eq)]
pub struct Module;

impl Module {
    /// The names that the module exports, in the order of their declaration.
    pub fn exports() -> (r: Vec<String>)
        ensures
            names(r@) == seq!["Url"@, "Headers"@, "Request"@, "Response"@, "Client"@],
    {
        let mut out: Vec<String> = Vec::new();
        out.push("Url".to_owned());
        out.push("Headers".to_owned());
        out.push("Request".to_owned());
        out.push("Response".to_owned());
        out.push("Client".to_owned());
        proof {
            assert(names(out@) =~= seq![
                "Url"@,
                "Headers"@,
                "Request"@,
                "Response"@,
                "Client"@,
            ]);
        }
        out
    }
}

/// The module under the name by which scripts import it.
pub fn http() -> (r: NativeModule<Module, &'static str>)
    ensures
        r.0@ == "http"@,
{
    NativeModule::new("http")
}

/// Whether `a` comes before `b` when bytes are compared one by one and a
/// proper prefix comes first.
pub open spec fn lex_less(a: Seq<u8>, b: Seq<u8>) -> bool
    decreases a.len(),
{
    if b.len() == 0 {
        false
    } else if a.len() == 0 {
        true
    } else if a[0] != b[0] {
        a[0] < b[0]
    } else {
        lex_less(a.drop_first(), b.drop_first())
    }
}

/// The order of header names: that of their UTF-8 bytes.
pub open spec fn name_less(a: Seq<char>, b: Seq<char>) -> bool {
    lex_less(encode_utf8(a), encode_utf8(b))
}

/// No sequence comes before itself.
pub proof fn lemma_lex_irreflexive(a: Seq<u8>)
    ensures
        !lex_less(a, a),
    decreases a.len(),
{
    if a.len() != 0 {
        lemma_lex_irreflexive(a.drop_first());
    }
}

/// Of two different sequences exactly one comes before the other.
pub proof fn lemma_lex_total(a: Seq<u8>, b: Seq<u8>)
    ensures
        a != b ==> (lex_less(a, b) != lex_less(b, a)),
        a == b ==> !lex_less(a, b),
    decreases a.len(),
{
    if a == b {
        lemma_lex_irreflexive(a);
    } else if a.len() == 0 || b.len() == 0 {
        if a.len() == 0 && b.len() == 0 {
            assert(a =~= b);
        }
    } else if a[0] == b[0] {
        lemma_lex_total(a.drop_first(), b.drop_first());
        if a.drop_first() == b.drop_first() {
            assert(a =~= seq![a[0]] + a.drop_first());
            assert(b =~= seq![b[0]] + b.drop_first());
        }
    }
}

/// What comes before something that comes before a third comes before the
/// third.
pub proof fn lemma_lex_transitive(a: Seq<u8>, b: Seq<u8>, c: Seq<u8>)
    requires
        lex_less(a, b),
        lex_less(b, c),
    ensures
        lex_less(a, c),
    decreases a.len(),
{
    if a.len() != 0 && b.len() != 0 && c.len() != 0 && a[0] == b[0] && b[0] == c[0] {
        lemma_lex_transitive(a.drop_first(), b.drop_first(), c.drop_first());
    }
}

/// Decides the order of two header names.
pub fn less(a: &str, b: &str) -> (r: bool)
    ensures
        r == name_less(a@, b@),
{
    let x = a.as_bytes();
    let y = b.as_bytes();
    let mut i: usize = 0;
    proof {
        assert(x@.skip(0) == x@);
        assert(y@.skip(0) == y@);
    }
    loop
        invariant
            i <= x.len(),
            i <= y.len(),
            x@ == encode_utf8(a@),
            y@ == encode_utf8(b@),
            lex_less(x@, y@) == lex_less(x@.skip(i as int), y@.skip(i as int)),
        decreases x.len() - i,
    {
        if i >= y.len() {
            return false;
        }
        if i >= x.len() {
            return true;
        }
        proof {
            assert(x@.skip(i as int)[0] == x@[i as int]);
            assert(y@.skip(i as int)[0] == y@[i as int]);
            assert(x@.skip(i as int).drop_first() == x@.skip(i + 1));
            assert(y@.skip(i as int).drop_first() == y@.skip(i + 1));
        }
        if x[i] != y[i] {
            return x[i] < y[i];
        }
        i += 1;
    }
}

/// The names and values of a list of headers.
pub open spec fn pairs(entries: Seq<(String, String)>) -> Seq<(Seq<char>, Seq<char>)> {
    entries.map_values(|e: (String, String)| (e.0@, e.1@))
}

/// Whether the names of `list` rise strictly from each entry to the next.
pub open spec fn rising(list: Seq<(Seq<char>, Seq<char>)>) -> bool {
    forall|i: int, j: int| 0 <= i < j < list.len() ==> name_less(list[i].0, list[j].0)
}

/// Whether `list` holds a header called `name`.
pub open spec fn has_name(list: Seq<(Seq<char>, Seq<char>)>, name: Seq<char>) -> bool {
    exists|i: int| 0 <= i < list.len() && #[trigger] list[i].0 == name
}

/// A position at which `list` holds a header called `name`.
pub open spec fn position_of(list: Seq<(Seq<char>, Seq<char>)>, name: Seq<char>) -> int {
    choose|i: int| 0 <= i < list.len() && #[trigger] list[i].0 == name
}

/// The headers of `list` as a map from names to values.
pub open spec fn as_map(list: Seq<(Seq<char>, Seq<char>)>) -> Map<Seq<char>, Seq<char>> {
    Map::new(
        |name: Seq<char>| has_name(list, name),
        |name: Seq<char>| list[position_of(list, name)].1,
    )
}

/// In a rising list every name occurs once, so an entry is what the map
/// holds for its name.
pub proof fn lemma_rising_entries(list: Seq<(Seq<char>, Seq<char>)>, i: int)
    requires
        rising(list),
        0 <= i < list.len(),
    ensures
        as_map(list).dom().contains(list[i].0),
        as_map(list)[list[i].0] == list[i].1,
{
    let name = list[i].0;
    assert(has_name(list, name));
    let k = position_of(list, name);
    assert(as_map(list)[name] == list[k].1);
    lemma_lex_irreflexive(encode_utf8(name));
    if k < i {
        assert(name_less(list[k].0, list[i].0));
    }
    if i < k {
        assert(name_less(list[i].0, list[k].0));
    }
}

/// The headers of a request or of a response: one value for each name,
/// kept in the order of the names.
#[derive(Debug, Default)]
pub struct Headers {
    headers: Vec<(String, String)>,
}

impl View for Headers {
    type V = Map<Seq<char>, Seq<char>>;

    closed spec fn view(&self) -> Map<Seq<char>, Seq<char>> {
        as_map(pairs(self.headers@))
    }
}

impl Headers {
    #[verifier::type_invariant]
    spec fn well_formed(&self) -> bool {
        rising(pairs(self.headers@))
    }

    /// Headers without any entry.
    pub fn new() -> (r: Headers)
        ensures
            r@ == Map::<Seq<char>, Seq<char>>::empty(),
    {
        let r = Headers { headers: Vec::new() };
        proof {
            assert(r@ =~= Map::<Seq<char>, Seq<char>>::empty());
        }
        r
    }

    /// Gives the header called `key` the value `value`, whether or not it
    /// had one.
    pub fn set(&mut self, key: String, value: String)
        ensures
            final(self)@ == old(self)@.insert(key@, value@),
    {
        proof {
            use_type_invariant(&*self);
        }
        let ghost before = pairs(self.headers@);
        let mut list: Vec<(String, String)> = Vec::new();
        std::mem::swap(&mut list, &mut self.headers);
        let mut i: usize = 0;
        while i < list.len() && less(list[i].0.as_str(), key.as_str())
            invariant
                i <= list.len(),
                before == pairs(list@),
                rising(before),
                forall|j: int| 0 <= j < i ==> name_less(before[j].0, key@),
            decreases list.len() - i,
        {
            proof {
                assert(before[i as int].0 == list@[i as int].0@);
            }
            i += 1;
        }
        let same = i < list.len() && str_eq(list[i].0.as_str(), key.as_str());
        let ghost k = key@;
        let ghost v = value@;
        proof {
            if i < list.len() {
                assert(before[i as int].0 == list@[i as int].0@);
            }
            lemma_lex_irreflexive(encode_utf8(k));
            assert forall|j: int| 0 <= j < i implies before[j].0 != k by {
                assert(name_less(before[j].0, k));
            }
        }
        if same {
            list.set(i, (key, value));
            proof {
                let now = pairs(list@);
                assert(now =~= before.update(i as int, (k, v)));
                assert(rising(now)) by {
                    assert forall|a: int, b: int| 0 <= a < b < now.len() implies name_less(
                        now[a].0,
                        now[b].0,
                    ) by {
                        assert(name_less(before[a].0, before[b].0));
                    }
                }
                lemma_replaced(before, now, i as int, k, v);
            }
        } else {
            list.insert(i, (key, value));
            proof {
                let now = pairs(list@);
                assert(now =~= before.insert(i as int, (k, v)));
                if i < before.len() {
                    let at = encode_utf8(before[i as int].0);
                    lemma_lex_total(at, encode_utf8(k));
                    crate::text::lemma_encoding_differs(before[i as int].0, k);
                    assert(name_less(k, before[i as int].0));
                    assert forall|j: int| i < j < before.len() implies name_less(
                        k,
                        before[j].0,
                    ) by {
                        assert(name_less(before[i as int].0, before[j].0));
                        lemma_lex_transitive(encode_utf8(k), at, encode_utf8(before[j].0));
                    }
                }
                assert(rising(now)) by {
                    assert forall|a: int, b: int| 0 <= a < b < now.len() implies name_less(
                        now[a].0,
                        now[b].0,
                    ) by {
                        if b < i {
                            assert(name_less(before[a].0, before[b].0));
                        } else if b == i {
                        } else if a < i {
                            assert(name_less(before[a].0, before[b - 1].0));
                        } else if a == i {
                        } else {
                            assert(name_less(before[a - 1].0, before[b - 1].0));
                        }
                    }
                }
                lemma_inserted(before, now, i as int, k, v);
            }
        }
        std::mem::swap(&mut list, &mut self.headers);
    }

    /// The headers, each name with its value, in the order of the names.
    pub fn iter(&self) -> (r: &[(String, String)])
        ensures
            rising(pairs(r@)),
            as_map(pairs(r@)) == self@,
    {
        proof {
            use_type_invariant(self);
        }
        self.headers.as_slice()
    }

    /// The value of the header called `key`, if there is one.
    pub fn get(&self, key: &str) -> (r: Option<&String>)
        ensures
            match r {
                Some(value) => self@.dom().contains(key@) && self@[key@] == value@,
                None => !self@.dom().contains(key@),
            },
    {
        proof {
            use_type_invariant(self);
        }
        let ghost list = pairs(self.headers@);
        let mut i: usize = 0;
        while i < self.headers.len()
            invariant
                i <= self.headers.len(),
                list == pairs(self.headers@),
                rising(list),
                forall|j: int| 0 <= j < i ==> list[j].0 != key@,
            decreases self.headers.len() - i,
        {
            proof {
                assert(list[i as int] == (self.headers@[i as int].0@, self.headers@[i as int].1@));
            }
            if str_eq(self.headers[i].0.as_str(), key) {
                proof {
                    lemma_rising_entries(list, i as int);
                }
                return Some(&self.headers[i].1);
            }
            i += 1;
        }
        None
    }

    /// How many headers there are.
    pub fn len(&self) -> (r: usize)
        ensures
            r == self@.len(),
            self@.dom().finite(),
    {
        proof {
            use_type_invariant(self);
            lemma_size(pairs(self.headers@));
        }
        self.headers.len()
    }
}

/// Whether `Method::from_bytes` accepts the bytes of `text` as a method.
pub uninterp spec fn method_token(text: Seq<char>) -> bool;

/// Calls `reqwest::Method::from_bytes` on the bytes of `text` and tells
/// whether it accepted them. The contract only gives the answer its name.
#[verifier::external_body]
pub(crate) fn is_method_token(text: &str) -> (r: bool)
    ensures
        r == method_token(text@),
{
    Method::from_bytes(text.as_bytes()).is_ok()
}

/// The method that a script means by `text`: `get`, `post` and `put` mean
/// the methods written in capitals, any other text means itself.
pub open spec fn method_meant(text: Seq<char>) -> Seq<char> {
    if text == "GET"@ || text == "get"@ {
        "GET"@
    } else if text == "POST"@ || text == "post"@ {
        "POST"@
    } else if text == "PUT"@ || text == "put"@ {
        "PUT"@
    } else {
        text
    }
}

/// Whether `text` names a method: one of the three that are known in small
/// letters too, or a token that the HTTP library accepts.
pub open spec fn names_method(text: Seq<char>) -> bool {
    text == "GET"@ || text == "get"@ || text == "POST"@ || text == "post"@ || text == "PUT"@
        || text == "put"@ || method_token(text)
}

/// A request as a script builds it: where it goes, how, and with which
/// headers.
#[derive(Debug)]
pub struct Request {
    pub url: String,
    pub headers: Headers,
    pub method: String,
}

impl Request {
    /// A `GET` request for `url` without headers.
    pub fn new(url: String) -> (r: Request)
        ensures
            r.url == url,
            r.headers@ == Map::<Seq<char>, Seq<char>>::empty(),
            r.method@ == "GET"@,
    {
        Request { url, headers: Headers::new(), method: "GET".to_owned() }
    }

    /// The method of the request.
    pub fn get_method(&self) -> (r: String)
        ensures
            r@ == self.method@,
    {
        self.method.clone()
    }

    /// Sets the method that `method` names.
    pub fn set_method(&mut self, method: &str)
        requires
            names_method(method@),
        ensures
            final(self).method@ == method_meant(method@),
            final(self).url == old(self).url,
            final(self).headers == old(self).headers,
    {
        if str_eq(method, "GET") || str_eq(method, "get") {
            self.method = "GET".to_owned();
        } else if str_eq(method, "POST") || str_eq(method, "post") {
            self.method = "POST".to_owned();
        } else if str_eq(method, "PUT") || str_eq(method, "put") {
            self.method = "PUT".to_owned();
        } else {
            self.method = method.to_owned();
        }
    }

    /// Sets the method that `method` names, if it names one, and tells
    /// whether it did; a text that names none leaves the request as it is.
    pub fn try_set_method(&mut self, method: &str) -> (r: bool)
        ensures
            r == names_method(method@),
            r ==> final(self).method@ == method_meant(method@),
            !r ==> final(self).method@ == old(self).method@,
            final(self).url == old(self).url,
            final(self).headers == old(self).headers,
    {
        let known = str_eq(method, "GET") || str_eq(method, "get") || str_eq(method, "POST")
            || str_eq(method, "post") || str_eq(method, "PUT") || str_eq(method, "put");
        if known || is_method_token(method) {
            self.set_method(method);
            true
        } else {
            false
        }
    }
}

/// Why a response does not give what was asked of it.
#[derive(Debug, Clone, Copy, PartialEq, Eq)]
pub enum ResponseError {
    /// The body was handed out before.
    BodyTaken,
    /// The response has not been given to a script yet.
    NotInitialized,
    /// The response has no status or headers yet.
    InvalidState,
}

impl ResponseError {
    /// The text that a script sees.
    pub fn message(&self) -> (r: &'static str)
        ensures
            r@ == match self {
                ResponseError::BodyTaken => "body already taken"@,
                ResponseError::NotInitialized => "not initialized"@,
                ResponseError::InvalidState => "invalid state"@,
            },
    {
        match self {
            ResponseError::BodyTaken => "body already taken",
            ResponseError::NotInitialized => "not initialized",
            ResponseError::InvalidState => "invalid state",
        }
    }
}

/// The life of a response. `B` is what the client received; it is handed
/// out once.
#[derive(Debug)]
pub enum ResponseState<B> {
    /// As the client returned it.
    Uninit(B),
    /// As a script sees it: status and headers read, the body still there or
    /// taken.
    Init { status: u16, headers: Headers, resp: Option<B> },
}

impl<B> ResponseState<B> {
    /// Hands out the body, once.
    pub fn take(&mut self) -> (r: Result<B, ResponseError>)
        ensures
            match *old(self) {
                ResponseState::Init { status, headers, resp: Some(body) } => r == Ok::<
                    B,
                    ResponseError,
                >(body) && *final(self) == (ResponseState::Init {
                    status,
                    headers,
                    resp: None::<B>,
                }),
                ResponseState::Init { resp: None, .. } => r == Err::<B, ResponseError>(
                    ResponseError::BodyTaken,
                ) && *final(self) == *old(self),
                ResponseState::Uninit(_) => r == Err::<B, ResponseError>(
                    ResponseError::NotInitialized,
                ) && *final(self) == *old(self),
            },
    {
        match self {
            ResponseState::Init { resp, .. } => match resp.take() {
                Some(body) => Ok(body),
                None => Err(ResponseError::BodyTaken),
            },
            ResponseState::Uninit(_) => Err(ResponseError::NotInitialized),
        }
    }

    /// The status of the response, once a script sees it.
    pub fn status(&self) -> (r: Result<u64, ResponseError>)
        ensures
            r == (match self {
                ResponseState::Init { status, .. } => Ok::<u64, ResponseError>(*status as u64),
                ResponseState::Uninit(_) => Err(ResponseError::InvalidState),
            }),
    {
        match self {
            ResponseState::Init { status, .. } => Ok(*status as u64),
            ResponseState::Uninit(_) => Err(ResponseError::InvalidState),
        }
    }

    /// The headers of the response, once a script sees it.
    pub fn headers(&self) -> (r: Result<&Headers, ResponseError>)
        ensures
            match self {
                ResponseState::Init { headers, .. } => r == Ok::<&Headers, ResponseError>(headers),
                ResponseState::Uninit(_) => r == Err::<&Headers, ResponseError>(
                    ResponseError::InvalidState,
                ),
            },
    {
        match self {
            ResponseState::Init { headers, .. } => Ok(headers),
            ResponseState::Uninit(_) => Err(ResponseError::InvalidState),
        }
    }

    /// Makes the response visible to a script, with the status and the
    /// headers that were read from it. A response is made visible once.
    pub fn init(self, status: u16, headers: Headers) -> (r: ResponseState<B>)
        requires
            self is Uninit,
        ensures
            r == (ResponseState::Init { status, headers, resp: Some(self->Uninit_0) }),
    {
        match self {
            ResponseState::Uninit(resp) => ResponseState::Init {
                status,
                headers,
                resp: Some(resp),
            },
            ResponseState::Init { .. } => vstd::pervasive::unreached(),
        }
    }
}

/// Replacing the value of an entry replaces the value of its name.
proof fn lemma_replaced(
    before: Seq<(Seq<char>, Seq<char>)>,
    now: Seq<(Seq<char>, Seq<char>)>,
    i: int,
    k: Seq<char>,
    v: Seq<char>,
)
    requires
        rising(before),
        rising(now),
        0 <= i < before.len(),
        before[i].0 == k,
        now == before.update(i, (k, v)),
    ensures
        as_map(now) == as_map(before).insert(k, v),
{
    let want = as_map(before).insert(k, v);
    assert forall|name: Seq<char>| as_map(now).dom().contains(name) == want.dom().contains(
        name,
    ) by {
        if has_name(now, name) {
            let j = position_of(now, name);
            assert(before[j].0 == name);
        }
        if has_name(before, name) {
            let j = position_of(before, name);
            assert(now[j].0 == name);
        }
        if name == k {
            assert(now[i].0 == name);
        }
    }
    assert forall|name: Seq<char>| as_map(now).dom().contains(name) implies as_map(now)[name]
        == want[name] by {
        let j = position_of(now, name);
        lemma_rising_entries(now, j);
        if name != k {
            assert(before[j] == now[j]);
            lemma_rising_entries(before, j);
        } else {
            lemma_rising_entries(now, i);
        }
    }
    assert(as_map(now) =~= want);
}

/// A new entry adds its name with its value and leaves the others alone.
proof fn lemma_inserted(
    before: Seq<(Seq<char>, Seq<char>)>,
    now: Seq<(Seq<char>, Seq<char>)>,
    i: int,
    k: Seq<char>,
    v: Seq<char>,
)
    requires
        rising(before),
        rising(now),
        0 <= i <= before.len(),
        now == before.insert(i, (k, v)),
    ensures
        as_map(now) == as_map(before).insert(k, v),
{
    let want = as_map(before).insert(k, v);
    assert forall|name: Seq<char>| as_map(now).dom().contains(name) == want.dom().contains(
        name,
    ) by {
        if has_name(now, name) {
            let j = position_of(now, name);
            if j < i {
                assert(before[j].0 == name);
            } else if j > i {
                assert(before[j - 1].0 == name);
            }
        }
        if has_name(before, name) {
            let j = position_of(before, name);
            if j < i {
                assert(now[j].0 == name);
            } else {
                assert(now[j + 1].0 == name);
            }
        }
        if name == k {
            assert(now[i].0 == name);
        }
    }
    assert forall|name: Seq<char>| as_map(now).dom().contains(name) implies as_map(now)[name]
        == want[name] by {
        let j = position_of(now, name);
        lemma_rising_entries(now, j);
        lemma_rising_entries(now, i);
        if j < i {
            assert(before[j] == now[j]);
            lemma_rising_entries(before, j);
        } else if j > i {
            assert(before[j - 1] == now[j]);
            lemma_rising_entries(before, j - 1);
        }
    }
    assert(as_map(now) =~= want);
}

/// A rising list holds as many names as it has entries.
proof fn lemma_size(list: Seq<(Seq<char>, Seq<char>)>)
    requires
        rising(list),
    ensures
        as_map(list).dom().finite(),
        as_map(list).len() == list.len(),
    decreases list.len(),
{
    if list.len() == 0 {
        assert(as_map(list).dom() =~= Set::<Seq<char>>::empty());
    } else {
        let head = list.drop_last();
        let last = list.last();
        assert(rising(head)) by {
            assert forall|a: int, b: int| 0 <= a < b < head.len() implies name_less(
                head[a].0,
                head[b].0,
            ) by {
                assert(name_less(list[a].0, list[b].0));
            }
        }
        lemma_size(head);
        lemma_lex_irreflexive(encode_utf8(last.0));
        assert(!has_name(head, last.0)) by {
            if has_name(head, last.0) {
                let j = position_of(head, last.0);
                assert(name_less(list[j].0, list[list.len() - 1].0));
            }
        }
        assert(as_map(list).dom() =~= as_map(head).dom().insert(last.0)) by {
            assert forall|name: Seq<char>| has_name(list, name) == (has_name(head, name) || name
                == last.0) by {
                if has_name(list, name) {
                    let j = position_of(list, name);
                    if j < head.len() {
                        assert(head[j].0 == name);
                    }
                }
                if has_name(head, name) {
                    let j = position_of(head, name);
                    assert(list[j].0 == name);
                }
                if name == last.0 {
                    assert(list[list.len() - 1].0 == name);
                }
            }
        }
    }
}

} // verus!
