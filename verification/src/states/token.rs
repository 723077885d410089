//! The session token of an account, as the cookies of the service carry
//! it.

use crate::error::{Error, ErrorKind, ErrorView};
use crate::text::same;
use cookie::Cookie;
use vstd::prelude::*;
use vstd::string::StringExecFns;

verus! {

/// The name and the value of the cookie that the header `header` sets, as
/// `cookie` reads them; `None` where the header sets none.
pub uninterp spec fn cookie_pair(header: Seq<char>) -> Option<(Seq<char>, Seq<char>)>;

/// `Cookie::parse` of `cookie`, with the name and the value of what it
/// read: a function of the header alone.
#[verifier::external_body]
fn parse_cookie(header: &str) -> (pair: Option<(String, String)>)
    ensures
        match cookie_pair(header@) {
            Some(read) => pair matches Some(made) && made.0@ == read.0 && made.1@ == read.1,
            None => pair is None,
        },
{
    match Cookie::parse(header) {
        Ok(cookie) => Some((cookie.name().to_string(), cookie.value().to_string())),
        Err(_) => None,
    }
}

/// The session token of an account.
#[derive(Clone, Debug, PartialEq, Eq)]
pub struct Token(pub String);

impl View for Token {
    type V = Seq<char>;

    open spec fn view(&self) -> Seq<char> {
        self.0@
    }
}

/// The host of the service.
pub open spec fn service_host() -> Seq<char> {
    "page.kakao.com"@
}

/// The name of the cookie that carries the token.
pub open spec fn token_cookie() -> Seq<char> {
    "_kpwtkn"@
}

/// The name of the host `host`, if it has one.
pub open spec fn host_of(host: Option<&str>) -> Option<Seq<char>> {
    match host {
        Some(name) => Some(name@),
        None => None,
    }
}

/// `host` is the host of the service.
pub open spec fn is_service(host: Option<Seq<char>>) -> bool {
    host == Some(service_host())
}

/// The failure to read the header `header`.
pub open spec fn bad_cookie(header: Seq<char>) -> ErrorView {
    ErrorView { kind: ErrorKind::RemoteProtocol, message: "invalid cookie: "@ + header }
}

/// The token after the headers `headers` were read, and the first header
/// that could not be read, if there is one: the headers behind it are not
/// read. The value of the last cookie of the token's name is the token.
pub open spec fn after_cookies(token: Seq<char>, headers: Seq<Seq<char>>) -> (
    Seq<char>,
    Option<Seq<char>>,
)
    decreases headers.len(),
{
    if headers.len() == 0 {
        (token, None)
    } else {
        let before = after_cookies(token, headers.drop_last());
        match before.1 {
            Some(_) => before,
            None => match cookie_pair(headers.last()) {
                None => (before.0, Some(headers.last())),
                Some(pair) => if pair.0 == token_cookie() {
                    (pair.1, None)
                } else {
                    before
                },
            },
        }
    }
}

/// The token after the name `name` and the value `value` of a cookie were
/// read.
pub open spec fn after_cookie(token: Seq<char>, name: Seq<char>, value: Seq<char>) -> Seq<char> {
    if name == token_cookie() {
        value
    } else {
        token
    }
}

/// The header that carries `token`.
pub open spec fn cookie_header(token: Seq<char>) -> Seq<char> {
    "_kpwtkn="@ + token
}

/// Whether `host` is the host of the service.
pub fn is_service_host(host: Option<&str>) -> (service: bool)
    ensures
        service == is_service(host_of(host)),
{
    match host {
        Some(name) => same(name, "page.kakao.com"),
        None => false,
    }
}

impl Token {
    /// Reads a cookie with the name `name` and the value `value`.
    pub fn set_cookie(&mut self, name: &str, value: &str)
        ensures
            final(self)@ == after_cookie(old(self)@, name@, value@),
    {
        if same(name, "_kpwtkn") {
            self.0 = String::from_str(value);
        }
    }

    /// Reads the headers `headers` that the host `host` has sent. Only the
    /// service sets the token.
    pub fn set_cookies(&mut self, host: Option<&str>, headers: &Vec<String>) -> (done: Result<
        (),
        Error,
    >)
        ensures
            !is_service(host_of(host)) ==> final(self)@ == old(self)@ && done is Ok,
            is_service(host_of(host)) ==> final(self)@ == after_cookies(
                old(self)@,
                headers.deep_view(),
            ).0 && (
            match after_cookies(old(self)@, headers.deep_view()).1 {
                None => done is Ok,
                Some(header) => done matches Err(error) && error@ == bad_cookie(header),
            }),
    {
        if !is_service_host(host) {
            return Ok(());
        }
        let ghost all = headers.deep_view();
        let mut at: usize = 0;
        assert(all.take(0) =~= Seq::<Seq<char>>::empty());
        while at < headers.len()
            invariant
                at <= headers.len(),
                all == headers.deep_view(),
                is_service(host_of(host)),
                after_cookies(old(self)@, all.take(at as int)) == (self@, None::<Seq<char>>),
            decreases headers.len() - at,
        {
            let header = &headers[at];
            proof {
                let upto = all.take(at + 1);
                assert(upto.drop_last() =~= all.take(at as int));
                assert(upto.last() == header@);
            }
            match parse_cookie(header.as_str()) {
                Some(pair) => {
                    self.set_cookie(pair.0.as_str(), pair.1.as_str());
                },
                None => {
                    proof {
                        lemma_cookies_stop(old(self)@, all, at as int);
                    }
                    let mut message = String::from_str("invalid cookie: ");
                    message.append(header.as_str());
                    return Err(Error::new(ErrorKind::RemoteProtocol, message));
                },
            }
            at += 1;
        }
        assert(all.take(all.len() as int) =~= all);
        Ok(())
    }

    /// The header that carries the token to the host `host`: none but to
    /// the service.
    pub fn cookies(&self, host: Option<&str>) -> (header: Option<String>)
        ensures
            header.deep_view() == (if is_service(host_of(host)) {
                Some(cookie_header(self@))
            } else {
                None
            }),
    {
        if is_service_host(host) {
            let mut header = String::from_str("_kpwtkn=");
            header.append(self.0.as_str());
            Some(header)
        } else {
            None
        }
    }
}

/// The headers behind one that cannot be read are not read.
proof fn lemma_cookies_stop(token: Seq<char>, headers: Seq<Seq<char>>, at: int)
    requires
        0 <= at < headers.len(),
        after_cookies(token, headers.take(at + 1)).1 is Some,
    ensures
        after_cookies(token, headers) == after_cookies(token, headers.take(at + 1)),
    decreases headers.len(),
{
    if at + 1 == headers.len() {
        assert(headers.take(at + 1) =~= headers);
    } else {
        assert(headers.drop_last().take(at + 1) =~= headers.take(at + 1));
        lemma_cookies_stop(token, headers.drop_last(), at);
    }
}

} // verus!
