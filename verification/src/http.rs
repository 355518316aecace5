use vstd::prelude::*;
use vstd::string::StringExecFns;
use crate::text::res_view;
use crate::text::u64_to_dec;
use crate::jar::CookieJar;
use crate::jar::cookies_header;
use crate::shell::default_output;

verus! {

/// The default for the persist-cookies flag: off.
pub fn default_cookies() -> (b: bool)
    ensures
        b == false,
{
    false
}

/// The default expected status.
pub fn default_status() -> (s: u16)
    ensures
        s == 200,
{
    200
}

/// The default method token.
pub fn default_method() -> (m: String)
    ensures
        m@ == "GET"@,
{
    String::from_str("GET")
}

/// A fully-specified HTTP action. The method is carried as its token on the
/// wire, so extension methods pass through unvalidated; an invalid token
/// surfaces as an execution-time failure, never earlier.
#[derive(Clone, Debug, PartialEq)]
pub struct HttpOptions {
    pub url: String,
    pub method: String,
    pub get_output: bool,
    pub save_cookies: bool,
    pub status: u16,
    pub user: Option<String>,
    pub pass: Option<String>,
    pub form: Option<Vec<(String, String)>>,
}

/// How an HTTP action is given: a bare URL, or full options.
#[derive(Clone, Debug, PartialEq)]
pub enum HttpVariant {
    UrlOnly(String),
    Options(HttpOptions),
}

impl HttpVariant {
    pub open spec fn url_spec(&self) -> Seq<char> {
        match *self {
            HttpVariant::UrlOnly(u) => u@,
            HttpVariant::Options(o) => o.url@,
        }
    }

    pub open spec fn get_output_spec(&self) -> bool {
        match *self {
            HttpVariant::UrlOnly(_) => true,
            HttpVariant::Options(o) => o.get_output,
        }
    }

    pub open spec fn status_spec(&self) -> u16 {
        match *self {
            HttpVariant::UrlOnly(_) => 200,
            HttpVariant::Options(o) => o.status,
        }
    }
}

/// Whether a text parses as a URL, and the parse error's description when it
/// does not: a function of the text alone.
pub uninterp spec fn url_parse_err(s: Seq<char>) -> Option<Seq<char>>;

/// The host of a URL text that parses, if it has one: a function of the text
/// alone.
pub uninterp spec fn url_host_of(s: Seq<char>) -> Option<Seq<char>>;

/// Relies on reqwest::Url::parse (the url crate's parser) and Url::host_str:
/// whether a text parses as a URL, its error's description and its host
/// depend on the text alone.
#[verifier::external_body]
fn url_host(url: &str) -> (r: Result<Option<String>, String>)
    ensures
        match r {
            Result::Ok(h) => url_parse_err(url@) is None && (match (h, url_host_of(url@)) {
                (Option::Some(hs), Option::Some(g)) => hs@ == g,
                (Option::None, Option::None) => true,
                _ => false,
            }),
            Result::Err(e) => url_parse_err(url@) == Option::Some(e@),
        },
{
    match reqwest::Url::parse(url) {
        Result::Ok(u) => Result::Ok(u.host_str().map(|h| h.to_string())),
        Result::Err(e) => Result::Err(e.to_string()),
    }
}

/// The numeric status of a received response: a fixed field of the response
/// value.
pub uninterp spec fn resp_status_of(r: reqwest::blocking::Response) -> u16;

/// The Set-Cookie header values of a received response, in order.
pub uninterp spec fn resp_cookies_of(r: reqwest::blocking::Response) -> Seq<Seq<char>>;

/// What reading a received response's body as text yields: the decoded text,
/// or the decode error's description.
pub uninterp spec fn resp_text_of(r: reqwest::blocking::Response) -> Result<Seq<char>, Seq<char>>;

/// The message every failure of the send itself carries.
pub open spec fn msg_transport(err: Seq<char>) -> Seq<char> {
    "Error connecting to url "@ + err
}

/// Relies on reqwest's blocking client: builds a client whose redirect policy
/// is none (a redirect is never followed; its status surfaces to the caller),
/// sends one request with optional basic auth, url-encoded form body and
/// cookie header, and returns the raw response. Every failure — building the
/// client, an invalid method token, or the transport itself — is returned as
/// one connection-failure message carrying the error's description, as the
/// body shows.
#[verifier::external_body]
fn http_send(opts: &HttpOptions, method: &str, cookie: &Option<String>) -> (r: Result<
    reqwest::blocking::Response,
    String,
>)
    ensures
        r matches Result::Err(e) ==> exists|t: Seq<char>| e@ == msg_transport(t),
{
    let policy = reqwest::redirect::Policy::none();
    let builder = reqwest::blocking::Client::builder().redirect(policy);
    let client = builder.build().map_err(|e| format!("Error connecting to url {}", e))?;
    let m = reqwest::Method::from_bytes(method.as_bytes()).map_err(
        |e| format!("Error connecting to url {:?}", e),
    )?;
    let mut rb = client.request(m, &opts.url);
    if let Some(u) = &opts.user { rb = rb.basic_auth(u, opts.pass.as_ref()); }
    if let Some(f) = &opts.form { rb = rb.form(f); }
    if let Some(c) = cookie { rb = rb.header(reqwest::header::COOKIE, c.as_str()); }
    rb.send().map_err(|e| format!("Error connecting to url {}", e))
}

#[verifier::external_type_specification]
#[verifier::external_body]
pub struct ExResponse(reqwest::blocking::Response);

/// Relies on reqwest::blocking::Response::status and StatusCode::as_u16: the
/// status is a fixed field of the received response.
#[verifier::external_body]
fn response_status(resp: &reqwest::blocking::Response) -> (s: u16)
    ensures
        s == resp_status_of(*resp),
{
    resp.status().as_u16()
}

/// Relies on Response::headers (HeaderMap::get_all): the values of every
/// Set-Cookie header of the response, in order, decoded as text.
#[verifier::external_body]
fn response_set_cookies(resp: &reqwest::blocking::Response) -> (v: Vec<String>)
    ensures
        v.deep_view() == resp_cookies_of(*resp),
{
    resp.headers().get_all(reqwest::header::SET_COOKIE).iter().map(
        |h| String::from_utf8_lossy(h.as_bytes()).into_owned(),
    ).collect()
}

/// Relies on Response::text: the response body decoded as text, or the decode
/// error's description.
#[verifier::external_body]
fn response_text(resp: reqwest::blocking::Response) -> (r: Result<String, String>)
    ensures
        res_view(r) == resp_text_of(resp),
{
    resp.text().map_err(|e| format!("{:?}", e))
}

pub open spec fn msg_url_parse(url: Seq<char>, err: Seq<char>) -> Seq<char> {
    "Failed to parse url `"@ + url + "`: "@ + err
}

pub open spec fn msg_no_host(url: Seq<char>) -> Seq<char> {
    "No host could be found for url: "@ + url
}

pub open spec fn msg_status(got: nat, expected: nat) -> Seq<char> {
    "returned status `"@ + crate::text::dec_rep(got) + "` does not match expected `"@
        + crate::text::dec_rep(expected) + "`"@
}

/// The method token a request is sent with: a form body upgrades a default
/// GET to POST, and never overrides an explicit method.
pub open spec fn effective_method(m: Seq<char>, has_form: bool) -> Seq<char> {
    if has_form && m == "GET"@ {
        "POST"@
    } else {
        m
    }
}

/// Decides the method a request goes out with, applying the form-body
/// upgrade rule.
pub fn request_method(m: &String, has_form: bool) -> (r: String)
    ensures
        r@ == effective_method(m@, has_form),
{
    let get = String::from_str("GET");
    if has_form && m.eq(&get) {
        String::from_str("POST")
    } else {
        m.clone()
    }
}

/// Writes the message of a status mismatch, naming both codes.
pub fn status_mismatch_msg(got: u16, expected: u16) -> (m: String)
    ensures
        m@ == msg_status(got as nat, expected as nat),
{
    let mut m = String::from_str("returned status `");
    let g = u64_to_dec(got as u64);
    m.append(g.as_str());
    m.append("` does not match expected `");
    let w = u64_to_dec(expected as u64);
    m.append(w.as_str());
    m.append("`");
    m
}

/// Compares the received status with the expected one: agreement passes, and
/// any other status yields exactly the mismatch message naming both codes.
pub fn status_gate(got: u16, expected: u16) -> (r: Option<String>)
    ensures
        (r is None) <==> (got == expected),
        (match r {
            Option::Some(m) => m@ == msg_status(got as nat, expected as nat),
            Option::None => true,
        }),
{
    if got == expected {
        Option::None
    } else {
        Option::Some(status_mismatch_msg(got, expected))
    }
}

/// What every outcome of an HTTP action satisfies. Before the network: a URL
/// that does not parse, or one without a host, fails with exactly the
/// corresponding message. Past that point, every failure is a transport
/// failure, a status mismatch naming the received and the expected code, or
/// the body-decode error of a response whose status agreed; and every success
/// comes from a response whose status equalled the expected one, and carries
/// its decoded body, or empty text when capture is off.
pub open spec fn http_run_ok(
    url: Seq<char>,
    get_output: bool,
    status: u16,
    rv: Result<Seq<char>, Seq<char>>,
) -> bool {
    match url_parse_err(url) {
        Option::Some(e) => rv == Result::<Seq<char>, Seq<char>>::Err(msg_url_parse(url, e)),
        Option::None => match url_host_of(url) {
            Option::None => rv == Result::<Seq<char>, Seq<char>>::Err(msg_no_host(url)),
            Option::Some(_) => match rv {
                Result::Ok(s) => {
                    &&& (!get_output ==> s == Seq::<char>::empty())
                    &&& exists|resp: reqwest::blocking::Response|
                        #[trigger] resp_status_of(resp) == status && (get_output
                            ==> resp_text_of(resp) == Result::<Seq<char>, Seq<char>>::Ok(s))
                },
                Result::Err(e) => {
                    ||| exists|t: Seq<char>| e == #[trigger] msg_transport(t)
                    ||| exists|g: u16|
                        g != status && e == #[trigger] msg_status(g as nat, status as nat)
                    ||| exists|resp: reqwest::blocking::Response|
                        #[trigger] resp_status_of(resp) == status && resp_text_of(resp)
                            == Result::<Seq<char>, Seq<char>>::Err(e)
                },
            },
        },
    }
}

/// Performs one HTTP action: parses the URL, upgrades the method for a form
/// body, attaches basic auth, form and any persisted cookies for the host,
/// sends without following redirects, compares the received status with the
/// expected one before reading any body, optionally captures the body, and
/// optionally persists the response's cookies under the host.
pub fn run_http_opts(opts: &HttpOptions, jar: &CookieJar) -> (r: Result<String, String>)
    ensures
        http_run_ok(opts.url@, opts.get_output, opts.status, res_view(r)),
{
    let hostname = match url_host(opts.url.as_str()) {
        Result::Err(e) => {
            let mut m = String::from_str("Failed to parse url `");
            m.append(opts.url.as_str());
            m.append("`: ");
            m.append(e.as_str());
            return Result::Err(m);
        },
        Result::Ok(Option::None) => {
            let mut m = String::from_str("No host could be found for url: ");
            m.append(opts.url.as_str());
            return Result::Err(m);
        },
        Result::Ok(Option::Some(h)) => h,
    };
    let m_eff = request_method(&opts.method, opts.form.is_some());
    let cookie = jar.lookup(hostname.as_str());
    let resp = match http_send(opts, m_eff.as_str(), &cookie) {
        Result::Ok(resp) => resp,
        Result::Err(e) => {
            return Result::Err(e);
        },
    };
    let ghost resp0 = resp;
    let got = response_status(&resp);
    let gate = status_gate(got, opts.status);
    match gate {
        Option::Some(m) => {
            proof {
                assert(resp_status_of(resp0) == got);
                assert(m@ == msg_status(got as nat, opts.status as nat));
            }
            return Result::Err(m);
        },
        Option::None => {},
    }
    let lines = if opts.save_cookies {
        response_set_cookies(&resp)
    } else {
        Vec::new()
    };
    let body = if opts.get_output {
        match response_text(resp) {
            Result::Ok(t) => t,
            Result::Err(e) => {
                proof {
                    assert(resp_status_of(resp0) == opts.status);
                    assert(resp_text_of(resp0) == Result::<Seq<char>, Seq<char>>::Err(e@));
                }
                return Result::Err(e);
            },
        }
    } else {
        String::new()
    };
    if opts.save_cookies && lines.len() > 0 {
        let header = cookies_header(&lines);
        jar.store(hostname, header);
    }
    proof {
        assert(resp_status_of(resp0) == opts.status);
        if opts.get_output {
            assert(resp_text_of(resp0) == Result::<Seq<char>, Seq<char>>::Ok(body@));
        }
    }
    Result::Ok(body)
}

impl HttpVariant {
    /// Performs this HTTP action against the shared cookie jar, normalizing
    /// the bare-URL shorthand to its defaults first.
    pub fn run(&self, jar: &CookieJar) -> (r: Result<String, String>)
        ensures
            http_run_ok(self.url_spec(), self.get_output_spec(), self.status_spec(), res_view(r)),
    {
        match self {
            HttpVariant::UrlOnly(u) => {
                let opts = HttpOptions {
                    url: u.clone(),
                    method: default_method(),
                    get_output: default_output(),
                    save_cookies: default_cookies(),
                    status: default_status(),
                    user: Option::None,
                    pass: Option::None,
                    form: Option::None,
                };
                run_http_opts(&opts, jar)
            },
            HttpVariant::Options(o) => run_http_opts(o, jar),
        }
    }
}

} // verus!
