//! Navigation-only `ember-bridge://` links: a link may open one of three
//! pages and carries nothing else.
use vstd::prelude::*;
use crate::text::{text_eq, opt_text};
use vstd::string::*;

verus! {

/// The parts of a parsed URL that decide where a link leads.
pub struct UrlParts {
    pub scheme: String,
    pub username: String,
    pub password: Option<String>,
    pub host: Option<String>,
    pub port: Option<u16>,
    pub path: String,
    pub query: Option<String>,
    pub fragment: Option<String>,
}

/// The parts of a parsed URL, as texts.
pub struct UrlPartsView {
    pub scheme: Seq<char>,
    pub username: Seq<char>,
    pub password: Option<Seq<char>>,
    pub host: Option<Seq<char>>,
    pub port: Option<u16>,
    pub path: Seq<char>,
    pub query: Option<Seq<char>>,
    pub fragment: Option<Seq<char>>,
}

impl View for UrlParts {
    type V = UrlPartsView;

    open spec fn view(&self) -> UrlPartsView {
        UrlPartsView {
            scheme: self.scheme@,
            username: self.username@,
            password: opt_text(self.password),
            host: opt_text(self.host),
            port: self.port,
            path: self.path@,
            query: opt_text(self.query),
            fragment: opt_text(self.fragment),
        }
    }
}

/// What the URL parser of `reqwest` (the `url` crate) makes of a text: `None`
/// where it refuses the text.
pub uninterp spec fn parsed_url(input: Seq<char>) -> Option<UrlPartsView>;

/// The page of the app that a link opens.
#[derive(Clone, Copy, PartialEq, Eq, Structural, Debug)]
pub enum Page {
    Machines,
    Settings,
    Setup,
}

pub open spec fn page_name(p: Page) -> Seq<char> {
    match p {
        Page::Machines => "machines"@,
        Page::Settings => "settings"@,
        Page::Setup => "setup"@,
    }
}

impl Page {
    /// The name by which the front end knows the page.
    pub fn as_str(&self) -> (r: &'static str)
        ensures
            r@ == page_name(*self),
    {
        match self {
            Page::Machines => "machines",
            Page::Settings => "settings",
            Page::Setup => "setup",
        }
    }
}

/// Where a parsed link leads: only `ember-bridge://open`, `//connect` and
/// `//setup`, with an empty path or `/`, and with no credentials, port,
/// query or fragment.
pub open spec fn link_page(u: UrlPartsView) -> Option<Page> {
    if u.scheme != "ember-bridge"@ || u.username.len() != 0 || u.password is Some
        || u.port is Some || u.query is Some || u.fragment is Some || !(u.path == ""@
        || u.path == "/"@) {
        None
    } else {
        match u.host {
            Some(h) => if h == "open"@ {
                Some(Page::Machines)
            } else if h == "connect"@ {
                Some(Page::Settings)
            } else if h == "setup"@ {
                Some(Page::Setup)
            } else {
                None
            },
            None => None,
        }
    }
}

/// The page a parsed link leads to, if it leads anywhere.
pub fn destination(url: &UrlParts) -> (r: Option<Page>)
    ensures
        r == link_page(url@),
{
    if !text_eq(url.scheme.as_str(), "ember-bridge") || url.username.as_str().unicode_len() != 0
        || url.password.is_some() || url.port.is_some() || url.query.is_some()
        || url.fragment.is_some() || !(text_eq(url.path.as_str(), "") || text_eq(
        url.path.as_str(),
        "/",
    )) {
        return None;
    }
    match &url.host {
        Some(h) => {
            if text_eq(h.as_str(), "open") {
                Some(Page::Machines)
            } else if text_eq(h.as_str(), "connect") {
                Some(Page::Settings)
            } else if text_eq(h.as_str(), "setup") {
                Some(Page::Setup)
            } else {
                None
            }
        },
        None => None,
    }
}

/// Parses a URL with `reqwest::Url::parse` and keeps the parts that
/// [`destination`] reads. The contract claims only that the result is the
/// parser's answer on this text, a function of the text alone.
#[verifier::external_body]
fn parse_url(input: &str) -> (r: Option<UrlParts>)
    ensures
        match r {
            Some(u) => parsed_url(input@) == Some(u@),
            None => parsed_url(input@) is None,
        },
{
    match reqwest::Url::parse(input) {
        Ok(u) => Some(UrlParts {
            scheme: u.scheme().to_string(),
            username: u.username().to_string(),
            password: u.password().map(str::to_string),
            host: u.host_str().map(str::to_string),
            port: u.port(),
            path: u.path().to_string(),
            query: u.query().map(str::to_string),
            fragment: u.fragment().map(str::to_string),
        }),
        Err(_) => None,
    }
}

/// The page that a link in text form leads to: `None` where the text is no
/// URL or the URL leads nowhere.
pub fn link_destination(input: &str) -> (r: Option<Page>)
    ensures
        r == match parsed_url(input@) {
            Some(u) => link_page(u),
            None => None,
        },
{
    match parse_url(input) {
        Some(u) => destination(&u),
        None => None,
    }
}

/// A link that leads anywhere carries nothing but the page: no
/// credentials, port, query, fragment or path, and only the
/// `ember-bridge` scheme.
pub proof fn lemma_links_carry_nothing(u: UrlPartsView)
    ensures
        link_page(u) is Some ==> {
            &&& u.scheme == "ember-bridge"@
            &&& u.username.len() == 0
            &&& u.password is None
            &&& u.port is None
            &&& u.query is None
            &&& u.fragment is None
            &&& (u.path == ""@ || u.path == "/"@)
            &&& (u.host == Some("open"@) || u.host == Some("connect"@) || u.host == Some(
                "setup"@,
            ))
        },
{
}

} // verus!
