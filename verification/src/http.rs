//! HTTP responses as they come off the wire.

use crate::error::Error;
use crate::text::all_digits;
use crate::text::decimal;
use crate::text::find_char;
use crate::text::from_chars;
use crate::text::index_of;
use crate::text::is_ascii_digit;
use crate::text::str_eq;
use crate::text::to_chars;
use vstd::prelude::*;
use vstd::string::StringExecFns;

verus! {

/// One header line: a name and a value.
#[derive(Debug, Clone, PartialEq, Eq)]
pub struct Header {
    pub name: String,
    pub value: String,
}

/// What a header holds.
pub struct HeaderView {
    pub name: Seq<char>,
    pub value: Seq<char>,
}

impl View for Header {
    type V = HeaderView;

    open spec fn view(&self) -> HeaderView {
        HeaderView { name: self.name@, value: self.value@ }
    }
}

impl Header {
    pub fn new(name: String, value: String) -> (h: Self)
        ensures
            h@ == (HeaderView { name: name@, value: value@ }),
    {
        Self { name, value }
    }

    /// A copy of this header.
    pub fn duplicate(&self) -> (h: Self)
        ensures
            h@ == self@,
    {
        Self { name: self.name.clone(), value: self.value.clone() }
    }
}

/// A list of headers seen as a sequence of views.
pub open spec fn headers_view(v: Seq<Header>) -> Seq<HeaderView> {
    Seq::new(v.len(), |i: int| v[i]@)
}

/// A response: status line, headers and body.
#[derive(Debug, Clone, PartialEq, Eq)]
pub struct HttpResponse {
    pub version: String,
    pub status_code: u32,
    pub reason: String,
    pub headers: Vec<Header>,
    pub body: String,
}

/// What a response holds.
pub struct HttpResponseView {
    pub version: Seq<char>,
    pub status_code: u32,
    pub reason: Seq<char>,
    pub headers: Seq<HeaderView>,
    pub body: Seq<char>,
}

impl View for HttpResponse {
    type V = HttpResponseView;

    open spec fn view(&self) -> HttpResponseView {
        HttpResponseView {
            version: self.version@,
            status_code: self.status_code,
            reason: self.reason@,
            headers: headers_view(self.headers@),
            body: self.body@,
        }
    }
}

/// The text with every newline that a carriage return follows replaced by
/// the newline alone, from `from` on.
pub open spec fn without_returns(s: Seq<char>, from: int) -> Seq<char>
    decreases s.len() - from,
{
    if !(0 <= from < s.len()) {
        Seq::<char>::empty()
    } else if s[from] == '\n' && from + 1 < s.len() && s[from + 1] == '\r' {
        seq!['\n'] + without_returns(s, from + 2)
    } else {
        seq![s[from]] + without_returns(s, from + 1)
    }
}

/// White space as `char::is_whitespace` knows it.
pub open spec fn is_blank(c: char) -> bool {
    let u = c as u32;
    (0x09 <= u <= 0x0D) || u == 0x20 || u == 0x85 || u == 0xA0 || u == 0x1680 || (0x2000 <= u
        <= 0x200A) || u == 0x2028 || u == 0x2029 || u == 0x202F || u == 0x205F || u == 0x3000
}

/// The first position in `from..to` that holds no white space.
pub open spec fn skip_blanks(s: Seq<char>, from: int, to: int) -> int
    decreases to - from,
{
    if 0 <= from < to <= s.len() && is_blank(s[from]) {
        skip_blanks(s, from + 1, to)
    } else {
        from
    }
}

/// The position behind the last character in `from..to` that is no white
/// space.
pub open spec fn drop_blanks(s: Seq<char>, from: int, to: int) -> int
    decreases to - from,
{
    if 0 <= from < to <= s.len() && is_blank(s[to - 1]) {
        drop_blanks(s, from, to - 1)
    } else {
        to
    }
}

/// The text in `from..to` without the white space at its ends.
pub open spec fn trimmed(s: Seq<char>, from: int, to: int) -> Seq<char> {
    let a = skip_blanks(s, from, to);
    s.subrange(a, drop_blanks(s, a, to))
}

/// The headers written in `from..to`, one per line, or `None` where a line
/// has no colon. Name and value stand before and behind the first colon of
/// their line, without the white space around them.
pub open spec fn headers_in(s: Seq<char>, from: int, to: int) -> Option<Seq<HeaderView>>
    decreases to - from,
{
    let eol = find_char(s, '\n', from, to);
    let colon = find_char(s, ':', from, eol);
    if !(0 <= from <= to <= s.len()) || colon >= eol {
        None
    } else {
        let header = HeaderView {
            name: trimmed(s, from, colon),
            value: trimmed(s, colon + 1, eol),
        };
        if from <= eol < to {
            match headers_in(s, eol + 1, to) {
                Some(rest) => Some(seq![header] + rest),
                None => None,
            }
        } else {
            Some(seq![header])
        }
    }
}

/// The first position at or behind `from` where an empty line follows a
/// line, or the length of the text.
pub open spec fn blank_line(s: Seq<char>, from: int) -> int
    decreases s.len() - from,
{
    if 0 <= from < s.len() && !(s[from] == '\n' && from + 1 < s.len() && s[from + 1] == '\n') {
        blank_line(s, from + 1)
    } else {
        from
    }
}

/// The number that the text spells: digits, with a `+` before them or not,
/// and a value that a `u32` can hold.
pub open spec fn number(s: Seq<char>) -> Option<u32> {
    if s.len() > 0 && s[0] == '+' {
        unsigned_number(s.subrange(1, s.len() as int))
    } else {
        unsigned_number(s)
    }
}

/// The number that the digits spell, if a `u32` can hold it.
pub open spec fn unsigned_number(digits: Seq<char>) -> Option<u32> {
    if digits.len() > 0 && all_digits(digits, 0, digits.len() as int) && decimal(
        digits,
        digits.len() as int,
    ) <= u32::MAX {
        Some(decimal(digits, digits.len() as int) as u32)
    } else {
        None
    }
}

/// The response that a text holds, or `None` where the text is none.
///
/// The status line ends at the first newline and consists of at least three
/// words with one blank between them: the version, the status code and the
/// reason. A status code that is no number counts as 404. Headers follow up
/// to the first empty line, and the body behind it; without an empty line
/// there are no headers and everything behind the status line is the body.
pub open spec fn response_of(raw: Seq<char>) -> Option<HttpResponseView> {
    let s = without_returns(raw, 0);
    let n = s.len() as int;
    let eol = find_char(s, '\n', 0, n);
    let first = find_char(s, ' ', 0, eol);
    let second = find_char(s, ' ', first + 1, eol);
    let third = find_char(s, ' ', second + 1, eol);
    let gap = blank_line(s, eol + 1);
    let headers = if gap < n {
        headers_in(s, eol + 1, gap)
    } else {
        Some(Seq::<HeaderView>::empty())
    };
    if eol >= n || first >= eol || second >= eol || headers is None {
        None
    } else {
        Some(
            HttpResponseView {
                version: s.subrange(0, first),
                status_code: match number(s.subrange(first + 1, second)) {
                    Some(code) => code,
                    None => 404,
                },
                reason: s.subrange(second + 1, third),
                headers: headers->0,
                body: if gap < n {
                    s.subrange(gap + 2, n)
                } else {
                    s.subrange(eol + 1, n)
                },
            },
        )
    }
}

/// The value of the first header called `name`.
pub open spec fn header_named(headers: Seq<HeaderView>, name: Seq<char>, from: int) -> Option<
    Seq<char>,
>
    decreases headers.len() - from,
{
    if !(0 <= from < headers.len()) {
        None
    } else if headers[from].name == name {
        Some(headers[from].value)
    } else {
        header_named(headers, name, from + 1)
    }
}

fn is_blank_char(c: char) -> (r: bool)
    ensures
        r == is_blank(c),
{
    let u = c as u32;
    (0x09 <= u && u <= 0x0D) || u == 0x20 || u == 0x85 || u == 0xA0 || u == 0x1680 || (0x2000 <= u
        && u <= 0x200A) || u == 0x2028 || u == 0x2029 || u == 0x202F || u == 0x205F || u == 0x3000
}

fn trim(v: &Vec<char>, from: usize, to: usize) -> (s: String)
    requires
        from <= to <= v.len(),
    ensures
        s@ == trimmed(v@, from as int, to as int),
{
    let mut a = from;
    while a < to && is_blank_char(v[a])
        invariant
            from <= a <= to <= v.len(),
            skip_blanks(v@, a as int, to as int) == skip_blanks(v@, from as int, to as int),
        decreases to - a,
    {
        a += 1;
    }
    let mut b = to;
    while a < b && is_blank_char(v[b - 1])
        invariant
            a <= b <= to <= v.len(),
            drop_blanks(v@, a as int, b as int) == drop_blanks(v@, a as int, to as int),
        decreases b - a,
    {
        b -= 1;
    }
    from_chars(v, a, b)
}

fn remove_returns(raw: &Vec<char>) -> (s: Vec<char>)
    ensures
        s@ == without_returns(raw@, 0),
{
    let mut s: Vec<char> = Vec::new();
    let mut i: usize = 0;
    while i < raw.len()
        invariant
            i <= raw.len(),
            s@ + without_returns(raw@, i as int) == without_returns(raw@, 0),
        decreases raw.len() - i,
    {
        let ghost before = s@;
        let ghost at = i as int;
        if raw[i] == '\n' && i + 1 < raw.len() && raw[i + 1] == '\r' {
            s.push('\n');
            i += 2;
            assert(s@ + without_returns(raw@, i as int) =~= before + (seq!['\n']
                + without_returns(raw@, at + 2)));
        } else {
            s.push(raw[i]);
            i += 1;
            assert(s@ + without_returns(raw@, i as int) =~= before + (seq![raw@[at]]
                + without_returns(raw@, at + 1)));
        }
    }
    assert(s@ + Seq::<char>::empty() =~= s@);
    s
}

fn find_blank_line(v: &Vec<char>, from: usize) -> (r: usize)
    requires
        from <= v.len(),
    ensures
        r == blank_line(v@, from as int),
        from <= r <= v.len(),
        r < v.len() ==> r + 1 < v.len(),
{
    let mut i = from;
    while i < v.len() && !(v[i] == '\n' && i + 1 < v.len() && v[i + 1] == '\n')
        invariant
            from <= i <= v.len(),
            blank_line(v@, i as int) == blank_line(v@, from as int),
        decreases v.len() - i,
    {
        i += 1;
    }
    i
}

fn parse_number(v: &Vec<char>, from: usize, to: usize) -> (r: Option<u32>)
    requires
        from <= to <= v.len(),
    ensures
        r == number(v@.subrange(from as int, to as int)),
{
    let ghost s = v@.subrange(from as int, to as int);
    let start = if from < to && v[from] == '+' {
        from + 1
    } else {
        from
    };
    let ghost digits = v@.subrange(start as int, to as int);
    proof {
        if s.len() > 0 && s[0] == '+' {
            assert(digits =~= s.subrange(1, s.len() as int));
        } else {
            assert(digits =~= s);
        }
    }
    let ghost want = number(s);
    assert(want == unsigned_number(digits));
    if start == to {
        return None;
    }
    let mut j = start;
    while j < to
        invariant
            start <= j <= to <= v.len(),
            digits == v@.subrange(start as int, to as int),
            all_digits(digits, 0, j - start),
            want == unsigned_number(digits),
            want == number(v@.subrange(from as int, to as int)),
        decreases to - j,
    {
        if !('0' <= v[j] && v[j] <= '9') {
            assert(digits[j - start] == v@[j as int]);
            assert(!is_ascii_digit(digits[j - start]));
            return None;
        }
        assert(digits[j - start] == v@[j as int]);
        j += 1;
    }
    let mut acc: u32 = 0;
    let mut i = start;
    while i < to
        invariant
            start <= i <= to <= v.len(),
            digits == v@.subrange(start as int, to as int),
            all_digits(digits, 0, to - start),
            acc == decimal(digits, i - start),
            want == unsigned_number(digits),
            want == number(v@.subrange(from as int, to as int)),
        decreases to - i,
    {
        assert(digits[i - start] == v@[i as int]);
        assert(is_ascii_digit(digits[i - start]));
        let d = v[i] as u32 - '0' as u32;
        if acc > (u32::MAX - d) / 10 {
            proof {
                lemma_decimal_grows(digits, i - start + 1, digits.len() as int);
            }
            return None;
        }
        acc = acc * 10 + d;
        i += 1;
    }
    Some(acc)
}

/// A numeral does not get smaller when digits are added to it.
proof fn lemma_decimal_grows(s: Seq<char>, n: int, m: int)
    requires
        0 <= n <= m,
    ensures
        decimal(s, n) <= decimal(s, m),
    decreases m - n,
{
    if n < m {
        lemma_decimal_grows(s, n, m - 1);
    }
}

fn parse_headers(v: &Vec<char>, from: usize, to: usize) -> (r: Option<Vec<Header>>)
    requires
        from <= to <= v.len(),
    ensures
        match r {
            Some(h) => Some(headers_view(h@)),
            None => None,
        } == headers_in(v@, from as int, to as int),
    decreases to - from,
{
    let eol = index_of(v, '\n', from, to);
    let colon = index_of(v, ':', from, eol);
    if colon >= eol {
        return None;
    }
    let header = Header::new(trim(v, from, colon), trim(v, colon + 1, eol));
    let mut headers: Vec<Header> = Vec::new();
    let ghost first = header@;
    headers.push(header);
    if eol < to {
        match parse_headers(v, eol + 1, to) {
            Some(rest) => {
                let mut rest = rest;
                let ghost rest_view = headers_view(rest@);
                headers.append(&mut rest);
                assert(headers_view(headers@) =~= seq![first] + rest_view);
                Some(headers)
            },
            None => None,
        }
    } else {
        assert(headers_view(headers@) =~= seq![first]);
        Some(headers)
    }
}

impl HttpResponse {
    /// Reads a response. Fails exactly on a text that `response_of` finds no
    /// response in, with a `Network` error that holds the text.
    pub fn new(raw_response: String) -> (r: Result<Self, Error>)
        ensures
            match r {
                Ok(response) => response_of(raw_response@) == Some(response@),
                Err(e) => response_of(raw_response@) is None && (e matches Error::Network(m) && m@
                    == raw_response@),
            },
    {
        let raw = to_chars(raw_response.as_str());
        let s = remove_returns(&raw);
        let n = s.len();
        let eol = index_of(&s, '\n', 0, n);
        if eol >= n {
            return Err(Error::Network(raw_response));
        }
        let first = index_of(&s, ' ', 0, eol);
        if first >= eol {
            return Err(Error::Network(raw_response));
        }
        let second = index_of(&s, ' ', first + 1, eol);
        if second >= eol {
            return Err(Error::Network(raw_response));
        }
        let third = index_of(&s, ' ', second + 1, eol);
        let gap = find_blank_line(&s, eol + 1);
        let (headers, body) = if gap < n {
            match parse_headers(&s, eol + 1, gap) {
                Some(h) => (h, from_chars(&s, gap + 2, n)),
                None => {
                    return Err(Error::Network(raw_response));
                },
            }
        } else {
            let none: Vec<Header> = Vec::new();
            assert(headers_view(none@) =~= Seq::<HeaderView>::empty());
            (none, from_chars(&s, eol + 1, n))
        };
        let status_code = match parse_number(&s, first + 1, second) {
            Some(code) => code,
            None => 404,
        };
        Ok(
            Self {
                version: from_chars(&s, 0, first),
                status_code,
                reason: from_chars(&s, second + 1, third),
                headers,
                body,
            },
        )
    }

    pub fn version(&self) -> (s: String)
        ensures
            s@ == self@.version,
    {
        self.version.clone()
    }

    pub fn status_code(&self) -> (code: u32)
        ensures
            code == self@.status_code,
    {
        self.status_code
    }

    pub fn reason(&self) -> (s: String)
        ensures
            s@ == self@.reason,
    {
        self.reason.clone()
    }

    pub fn headers(&self) -> (v: Vec<Header>)
        ensures
            headers_view(v@) == self@.headers,
    {
        let mut v: Vec<Header> = Vec::new();
        let mut i: usize = 0;
        while i < self.headers.len()
            invariant
                i <= self.headers.len(),
                v@.len() == i,
                forall|j: int| 0 <= j < i ==> v@[j]@ == self.headers@[j]@,
            decreases self.headers.len() - i,
        {
            v.push(self.headers[i].duplicate());
            i += 1;
        }
        assert(headers_view(v@) =~= self@.headers);
        v
    }

    pub fn body(&self) -> (s: String)
        ensures
            s@ == self@.body,
    {
        self.body.clone()
    }

    /// The value of the first header called `name`; the message
    /// `Header <name> not found.` where there is none.
    pub fn header_value(&self, name: &str) -> (r: Result<String, String>)
        ensures
            match r {
                Ok(value) => header_named(self@.headers, name@, 0) == Some(value@),
                Err(e) => header_named(self@.headers, name@, 0) is None && e@ == "Header "@
                    + name@ + " not found."@,
            },
    {
        let mut i: usize = 0;
        while i < self.headers.len()
            invariant
                i <= self.headers.len(),
                header_named(self@.headers, name@, i as int) == header_named(
                    self@.headers,
                    name@,
                    0,
                ),
            decreases self.headers.len() - i,
        {
            assert(self@.headers[i as int] == self.headers@[i as int]@);
            if str_eq(self.headers[i].name.as_str(), name) {
                return Ok(self.headers[i].value.clone());
            }
            i += 1;
        }
        Err(not_found(name))
    }
}

/// The message for a header that is not there.
fn not_found(name: &str) -> (s: String)
    ensures
        s@ == "Header "@ + name@ + " not found."@,
{
    let mut s = "Header ".to_owned();
    s.append(name);
    s.append(" not found.");
    s
}

} // verus!
