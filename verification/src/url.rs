//! URLs of the form `http://host:port/path?searchpart`.

use crate::text::contains;
use crate::text::contains_str;
use crate::text::find_char;
use crate::text::from_chars;
use crate::text::index_of;
use crate::text::matches_at;
use crate::text::starts_at;
use crate::text::to_chars;
use vstd::prelude::*;

verus! {

/// A URL and the parts that `parse` found in it.
#[derive(Debug, Clone, PartialEq)]
pub struct Url {
    pub url: String,
    pub host: String,
    pub port: String,
    pub path: String,
    pub searchpart: String,
}

/// What a URL holds.
pub struct UrlView {
    pub url: Seq<char>,
    pub host: Seq<char>,
    pub port: Seq<char>,
    pub path: Seq<char>,
    pub searchpart: Seq<char>,
}

impl View for Url {
    type V = UrlView;

    open spec fn view(&self) -> UrlView {
        UrlView {
            url: self.url@,
            host: self.host@,
            port: self.port@,
            path: self.path@,
            searchpart: self.searchpart@,
        }
    }
}

/// Whether the text names the HTTP scheme.
pub open spec fn is_http(url: Seq<char>) -> bool {
    contains_str(url, "http://"@)
}

/// The position behind every `scheme` that the text starts with from `from`.
pub open spec fn after_scheme(url: Seq<char>, scheme: Seq<char>, from: int) -> int
    decreases url.len() - from,
{
    if scheme.len() > 0 && starts_at(url, scheme, from) {
        after_scheme(url, scheme, from + scheme.len())
    } else {
        from
    }
}

/// The authority starts within the text.
pub proof fn lemma_after_scheme_bounds(url: Seq<char>, scheme: Seq<char>, from: int)
    requires
        0 <= from <= url.len(),
    ensures
        from <= after_scheme(url, scheme, from) <= url.len(),
    decreases url.len() - from,
{
    if scheme.len() > 0 && starts_at(url, scheme, from) {
        lemma_after_scheme_bounds(url, scheme, from + scheme.len());
    }
}

/// Where the authority of a URL starts.
pub open spec fn authority_start(url: Seq<char>) -> int {
    after_scheme(url, "http://"@, 0)
}

/// Where the authority ends: at the first `/` behind it, or at the end.
pub open spec fn authority_end(url: Seq<char>) -> int {
    find_char(url, '/', authority_start(url), url.len() as int)
}

/// Where the host ends: at the first `:` of the authority, or at its end.
pub open spec fn host_end(url: Seq<char>) -> int {
    find_char(url, ':', authority_start(url), authority_end(url))
}

/// Where the path ends: at the first `?` behind the authority, or at the end.
pub open spec fn path_end(url: Seq<char>) -> int {
    find_char(url, '?', authority_end(url) + 1, url.len() as int)
}

/// The host: the authority up to its first `:`.
pub open spec fn host_of(url: Seq<char>) -> Seq<char> {
    url.subrange(authority_start(url), host_end(url))
}

/// The port: what follows the first `:` of the authority; `80` without one.
pub open spec fn port_of(url: Seq<char>) -> Seq<char> {
    if host_end(url) < authority_end(url) {
        url.subrange(host_end(url) + 1, authority_end(url))
    } else {
        "80"@
    }
}

/// The path: what lies between the `/` behind the authority and the first
/// `?`; empty without that `/`.
pub open spec fn path_of(url: Seq<char>) -> Seq<char> {
    if authority_end(url) < url.len() {
        url.subrange(authority_end(url) + 1, path_end(url))
    } else {
        Seq::<char>::empty()
    }
}

/// The search part: what follows the first `?` of the path; empty without
/// one.
pub open spec fn searchpart_of(url: Seq<char>) -> Seq<char> {
    if authority_end(url) < url.len() && path_end(url) < url.len() {
        url.subrange(path_end(url) + 1, url.len() as int)
    } else {
        Seq::<char>::empty()
    }
}

/// The URL with its parts.
pub open spec fn parsed(url: Seq<char>) -> UrlView {
    UrlView {
        url,
        host: host_of(url),
        port: port_of(url),
        path: path_of(url),
        searchpart: searchpart_of(url),
    }
}

/// The marks of a URL: start and end of the authority, end of the host,
/// end of the path.
struct Marks {
    start: usize,
    slash: usize,
    colon: usize,
    question: usize,
}

impl Url {
    /// A URL whose parts have not been looked for.
    pub fn new(url: String) -> (u: Self)
        ensures
            u@ == (UrlView {
                url: url@,
                host: Seq::<char>::empty(),
                port: Seq::<char>::empty(),
                path: Seq::<char>::empty(),
                searchpart: Seq::<char>::empty(),
            }),
    {
        Self {
            url,
            host: String::new(),
            port: String::new(),
            path: String::new(),
            searchpart: String::new(),
        }
    }

    /// Finds host, port, path and search part. Fails, and changes nothing,
    /// exactly when the text does not name the HTTP scheme.
    pub fn parse(&mut self) -> (r: Result<Self, String>)
        ensures
            match r {
                Ok(u) => is_http(old(self)@.url) && u@ == parsed(old(self)@.url) && final(self)@
                    == u@,
                Err(e) => !is_http(old(self)@.url) && e@ == "Only HTTP schema is supported."@
                    && final(self)@ == old(self)@,
            },
    {
        if !self.is_http() {
            return Err("Only HTTP schema is supported.".to_owned());
        }
        self.host = self.extract_host();
        self.port = self.extract_port();
        self.path = self.extract_path();
        self.searchpart = self.extract_searchpart();
        Ok(self.duplicate())
    }

    /// A copy of this URL.
    pub fn duplicate(&self) -> (u: Self)
        ensures
            u@ == self@,
    {
        Self {
            url: self.url.clone(),
            host: self.host.clone(),
            port: self.port.clone(),
            path: self.path.clone(),
            searchpart: self.searchpart.clone(),
        }
    }

    pub fn host(&self) -> (s: String)
        ensures
            s@ == self@.host,
    {
        self.host.clone()
    }

    pub fn port(&self) -> (s: String)
        ensures
            s@ == self@.port,
    {
        self.port.clone()
    }

    pub fn path(&self) -> (s: String)
        ensures
            s@ == self@.path,
    {
        self.path.clone()
    }

    pub fn searchpart(&self) -> (s: String)
        ensures
            s@ == self@.searchpart,
    {
        self.searchpart.clone()
    }

    fn is_http(&self) -> (r: bool)
        ensures
            r == is_http(self@.url),
    {
        let url = to_chars(self.url.as_str());
        let scheme = to_chars("http://");
        contains(&url, &scheme)
    }

    fn marks(url: &Vec<char>) -> (m: Marks)
        ensures
            m.start == authority_start(url@),
            m.slash == authority_end(url@),
            m.colon == host_end(url@),
            m.slash < url@.len() ==> m.question == path_end(url@),
            m.start <= m.colon <= m.slash <= url@.len(),
            m.slash < url@.len() ==> m.slash < m.question <= url@.len(),
    {
        let scheme = to_chars("http://");
        let mut start: usize = 0;
        proof {
            lemma_after_scheme_bounds(url@, scheme@, 0);
        }
        while scheme.len() > 0 && matches_at(url, &scheme, start)
            invariant
                start <= url.len(),
                scheme@ == "http://"@,
                after_scheme(url@, scheme@, start as int) == after_scheme(url@, scheme@, 0),
            decreases url.len() - start,
        {
            start = start + scheme.len();
        }
        let slash = index_of(url, '/', start, url.len());
        let colon = index_of(url, ':', start, slash);
        let question = if slash < url.len() {
            index_of(url, '?', slash + 1, url.len())
        } else {
            slash
        };
        Marks { start, slash, colon, question }
    }

    fn extract_host(&self) -> (s: String)
        ensures
            s@ == host_of(self@.url),
    {
        let url = to_chars(self.url.as_str());
        let m = Self::marks(&url);
        from_chars(&url, m.start, m.colon)
    }

    fn extract_port(&self) -> (s: String)
        ensures
            s@ == port_of(self@.url),
    {
        let url = to_chars(self.url.as_str());
        let m = Self::marks(&url);
        if m.colon < m.slash {
            from_chars(&url, m.colon + 1, m.slash)
        } else {
            "80".to_owned()
        }
    }

    fn extract_path(&self) -> (s: String)
        ensures
            s@ == path_of(self@.url),
    {
        let url = to_chars(self.url.as_str());
        let m = Self::marks(&url);
        if m.slash < url.len() {
            from_chars(&url, m.slash + 1, m.question)
        } else {
            String::new()
        }
    }

    fn extract_searchpart(&self) -> (s: String)
        ensures
            s@ == searchpart_of(self@.url),
    {
        let url = to_chars(self.url.as_str());
        let m = Self::marks(&url);
        if m.slash < url.len() && m.question < url.len() {
            from_chars(&url, m.question + 1, url.len())
        } else {
            String::new()
        }
    }
}

} // verus!
