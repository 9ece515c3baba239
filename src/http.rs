//! A request description and the parser that reads one out of a curl
//! command line.

use std::collections::HashMap;
use vstd::string::StrSliceExecFns;
use vstd::prelude::*;

use crate::text::{chars_of, is_word, lower_of, lowercase, slice_chars, string_of, trim_char, trim_matches_char, trim_white_space, trim_ws, upper_of, uppercase, insert_text};
use crate::base64::base64_encode;

verus! {

/// Where the tokenizer stands: finished tokens, the token being read,
/// inside single quotes, inside double quotes, after a backslash.
pub type LexState = (Seq<Seq<char>>, Seq<char>, bool, bool, bool);

/// A blank that separates tokens outside quotes.
pub open spec fn is_blank(c: char) -> bool {
    c == ' ' || c == '\t' || c == '\n' || c == '\r'
}

/// One character of a command line, shell-style: quotes group, a backslash
/// inside double quotes escapes the next character, blanks separate.
pub open spec fn lex_step(st: LexState, c: char) -> LexState {
    let (tokens, current, single, double, escape) = st;
    if escape {
        (tokens, current.push(c), single, double, false)
    } else if c == '\\' && double {
        (tokens, current, single, double, true)
    } else if c == '\'' && !double {
        (tokens, current, !single, double, false)
    } else if c == '"' && !single {
        (tokens, current, single, !double, false)
    } else if is_blank(c) && !single && !double {
        if current.len() > 0 {
            (tokens.push(current), Seq::empty(), single, double, false)
        } else {
            st
        }
    } else {
        (tokens, current.push(c), single, double, false)
    }
}

/// The state after reading all of `cs`.
pub open spec fn lex(cs: Seq<char>) -> LexState
    decreases cs.len(),
{
    if cs.len() == 0 {
        (Seq::empty(), Seq::empty(), false, false, false)
    } else {
        lex_step(lex(cs.drop_last()), cs.last())
    }
}

/// The tokens of a command line.
pub open spec fn curl_tokens(cs: Seq<char>) -> Seq<Seq<char>> {
    let st = lex(cs);
    if st.1.len() > 0 {
        st.0.push(st.1)
    } else {
        st.0
    }
}

/// The views of a list of character vectors.
pub open spec fn views(v: Seq<Vec<char>>) -> Seq<Seq<char>> {
    v.map_values(|t: Vec<char>| t@)
}

/// Splits a command line into tokens.
fn tokenize_curl(curl_command: &str) -> (r: Vec<Vec<char>>)
    ensures
        views(r@) == curl_tokens(curl_command@),
{
    let cs = chars_of(curl_command);
    let mut tokens: Vec<Vec<char>> = Vec::new();
    let mut current: Vec<char> = Vec::new();
    let mut in_single = false;
    let mut in_double = false;
    let mut escape_next = false;
    let mut i: usize = 0;
    while i < cs.len()
        invariant
            i <= cs@.len(),
            cs@ == curl_command@,
            (views(tokens@), current@, in_single, in_double, escape_next) == lex(cs@.take(i as int)),
        decreases cs@.len() - i,
    {
        let ch = cs[i];
        assert(cs@.take(i + 1).drop_last() =~= cs@.take(i as int));
        if escape_next {
            current.push(ch);
            escape_next = false;
        } else if ch == '\\' && in_double {
            escape_next = true;
        } else if ch == '\'' && !in_double {
            in_single = !in_single;
        } else if ch == '"' && !in_single {
            in_double = !in_double;
        } else if (ch == ' ' || ch == '\t' || ch == '\n' || ch == '\r') && !in_single && !in_double {
            if current.len() > 0 {
                let ghost before = tokens@;
                let mut done: Vec<char> = Vec::new();
                std::mem::swap(&mut done, &mut current);
                tokens.push(done);
                assert(views(tokens@) =~= views(before).push(done@));
            }
        } else {
            current.push(ch);
        }
        i = i + 1;
    }
    assert(cs@.take(i as int) =~= cs@);
    if current.len() > 0 {
        let ghost before = tokens@;
        tokens.push(current);
        assert(views(tokens@) =~= views(before).push(current@));
    }
    tokens
}

} // verus!

verus! {

/// The method of an HTTP request.
#[derive(Debug, Clone, Copy, PartialEq, Eq, Structural)]
pub enum HttpMethod {
    GET,
    POST,
    PUT,
    DELETE,
    PATCH,
    HEAD,
    OPTIONS,
}

/// The method that an upper-case name denotes; `GET` for any other name.
pub open spec fn method_named(u: Seq<char>) -> HttpMethod {
    if u == "GET"@ {
        HttpMethod::GET
    } else if u == "POST"@ {
        HttpMethod::POST
    } else if u == "PUT"@ {
        HttpMethod::PUT
    } else if u == "DELETE"@ {
        HttpMethod::DELETE
    } else if u == "PATCH"@ {
        HttpMethod::PATCH
    } else if u == "HEAD"@ {
        HttpMethod::HEAD
    } else if u == "OPTIONS"@ {
        HttpMethod::OPTIONS
    } else {
        HttpMethod::GET
    }
}

/// The method that a name denotes, letter case aside.
pub open spec fn method_of(name: Seq<char>) -> HttpMethod {
    method_named(upper_of(name))
}

impl HttpMethod {
    /// The method of a name, letter case aside; `GET` for an unknown name.
    pub fn from_str(method: &str) -> (r: HttpMethod)
        ensures
            r == method_of(method@),
    {
        let upper = uppercase(method);
        HttpMethod::from_upper(upper.as_str())
    }

    /// The method of an upper-case name; `GET` for an unknown name.
    pub fn from_upper(upper: &str) -> (r: HttpMethod)
        ensures
            r == method_named(upper@),
    {
        let u = chars_of(upper);
        if is_word(&u, "GET") {
            HttpMethod::GET
        } else if is_word(&u, "POST") {
            HttpMethod::POST
        } else if is_word(&u, "PUT") {
            HttpMethod::PUT
        } else if is_word(&u, "DELETE") {
            HttpMethod::DELETE
        } else if is_word(&u, "PATCH") {
            HttpMethod::PATCH
        } else if is_word(&u, "HEAD") {
            HttpMethod::HEAD
        } else if is_word(&u, "OPTIONS") {
            HttpMethod::OPTIONS
        } else {
            HttpMethod::GET
        }
    }
}

/// `p` is the index of the first colon of `s`.
pub open spec fn colon_at(s: Seq<char>, p: int) -> bool {
    &&& 0 <= p < s.len()
    &&& s[p] == ':'
    &&& forall|k: int| 0 <= k < p ==> s[k] != ':'
}

/// A header line split at its first colon: the trimmed name, and the value
/// trimmed of blanks and then of backticks.
pub open spec fn header_parts(s: Seq<char>) -> Option<(Seq<char>, Seq<char>)> {
    if exists|p: int| colon_at(s, p) {
        let p = choose|p: int| colon_at(s, p);
        Some((trim_ws(s.take(p)), trim_char(trim_ws(s.skip(p + 1)), '`')))
    } else {
        None
    }
}

fn parse_header(header: &Vec<char>) -> (r: Option<(String, String)>)
    ensures
        match header_parts(header@) {
            Some((k, v)) => r is Some && r->Some_0.0@ == k && r->Some_0.1@ == v,
            None => r is None,
        },
{
    let n = header.len();
    let mut p: usize = 0;
    while p < n && header[p] != ':'
        invariant
            p <= n == header@.len(),
            forall|k: int| 0 <= k < p ==> header@[k] != ':',
        decreases n - p,
    {
        p = p + 1;
    }
    if p == n {
        assert(!exists|q: int| colon_at(header@, q));
        return None;
    }
    assert(colon_at(header@, p as int));
    let ghost q = choose|q: int| colon_at(header@, q);
    assert(q == p) by {
        if q < p {
            assert(header@[q] != ':');
        }
        if q > p {
            assert(header@[p as int] != ':');
        }
    }
    let key_chars = slice_chars(header, 0, p);
    let value_chars = slice_chars(header, p + 1, n);
    assert(key_chars@ =~= header@.take(p as int));
    assert(value_chars@ =~= header@.skip(p + 1));
    let key = string_of(&trim_white_space(&key_chars));
    let value_trimmed = trim_white_space(&value_chars);
    let value = string_of(&trim_matches_char(&value_trimmed, '`'));
    Some((key, value))
}

} // verus!

verus! {

/// What a command line has said so far: the method, the first URL, the
/// headers by lower-case name, the data, and the form fields.
pub type CurlScan = (HttpMethod, Option<Seq<char>>, Map<Seq<char>, Seq<char>>, Option<Seq<char>>, Seq<Seq<char>>);

pub open spec fn scan_start() -> CurlScan {
    (HttpMethod::GET, None, Map::empty(), None, Seq::empty())
}

pub open spec fn with_method(s: CurlScan, m: HttpMethod) -> CurlScan {
    (m, s.1, s.2, s.3, s.4)
}

pub open spec fn with_header(s: CurlScan, k: Seq<char>, v: Seq<char>) -> CurlScan {
    (s.0, s.1, s.2.insert(k, v), s.3, s.4)
}

/// Records a `Name: value` line under the lower-cased name; a line without
/// a colon is ignored.
pub open spec fn with_header_line(s: CurlScan, line: Seq<char>) -> CurlScan {
    (s.0, s.1, map_with_line(s.2, line), s.3, s.4)
}

/// A header map after a `Name: value` line.
pub open spec fn map_with_line(m: Map<Seq<char>, Seq<char>>, line: Seq<char>) -> Map<Seq<char>, Seq<char>> {
    match header_parts(line) {
        Some((k, v)) => m.insert(lower_of(k), v),
        None => m,
    }
}

pub open spec fn with_data(s: CurlScan, d: Seq<char>) -> CurlScan {
    (s.0, s.1, s.2, Some(d), s.4)
}

pub open spec fn with_form(s: CurlScan, f: Seq<char>) -> CurlScan {
    (s.0, s.1, s.2, s.3, s.4.push(f))
}

pub open spec fn with_url(s: CurlScan, u: Seq<char>) -> CurlScan {
    (s.0, Some(u), s.2, s.3, s.4)
}

/// The header line that `-u user:password` stands for.
pub open spec fn basic_auth_line(auth: Seq<char>) -> Seq<char> {
    "Authorization: Basic "@ + crate::base64::base64_of(vstd::utf8::encode_utf8(auth))
}

pub open spec fn starts_dash(t: Seq<char>) -> bool {
    t.len() > 0 && t[0] == '-'
}

pub open spec fn starts_double_dash(t: Seq<char>) -> bool {
    t.len() > 1 && t[0] == '-' && t[1] == '-'
}

/// The letters of a cluster of short options (`-sXH`) from the `k`-th on,
/// the token at `i` holding the cluster and `used` tokens after it taken as
/// arguments so far; gives the scan and the number of arguments taken.
pub open spec fn scan_cluster(t: Seq<Seq<char>>, flag: Seq<char>, k: int, s: CurlScan, i: int, used: nat) -> (CurlScan, nat)
    decreases flag.len() - k,
{
    if k < 0 || k >= flag.len() {
        (s, used)
    } else {
        let c = flag[k];
        let j = i + used;
        let more = j < t.len() - 1;
        if c == 'X' && more {
            scan_cluster(t, flag, k + 1, with_method(s, method_of(t[j + 1])), i, used + 1)
        } else if c == 'H' && more {
            scan_cluster(t, flag, k + 1, with_header_line(s, t[j + 1]), i, used + 1)
        } else if c == 'd' && more {
            scan_cluster(t, flag, k + 1, with_data(s, t[j + 1]), i, used + 1)
        } else {
            scan_cluster(t, flag, k + 1, s, i, used)
        }
    }
}

pub open spec fn is_data_flag(tok: Seq<char>) -> bool {
    tok == "-d"@ || tok == "--data"@ || tok == "--data-ascii"@ || tok == "--data-binary"@
}

pub open spec fn is_ignored_flag(tok: Seq<char>) -> bool {
    ||| tok == "-k"@
    ||| tok == "--insecure"@
    ||| tok == "-s"@
    ||| tok == "--silent"@
    ||| tok == "-v"@
    ||| tok == "--verbose"@
    ||| tok == "-i"@
    ||| tok == "--include"@
    ||| tok == "-L"@
    ||| tok == "--location"@
    ||| tok == "-f"@
    ||| tok == "--fail"@
    ||| tok == "--max-time"@
    ||| tok == "--connect-timeout"@
}

/// The token at `i` read into the scan; gives the new scan and how many
/// following tokens it took as arguments.
pub open spec fn scan_token(t: Seq<Seq<char>>, s: CurlScan, i: int) -> (CurlScan, nat) {
    let tok = t[i];
    let more = i < t.len() - 1;
    if tok == "curl"@ || tok == "curl.exe"@ {
        (s, 0)
    } else if tok == "-X"@ || tok == "--request"@ {
        if more { (with_method(s, method_of(t[i + 1])), 1) } else { (s, 0) }
    } else if tok == "-H"@ || tok == "--header"@ {
        if more { (with_header_line(s, t[i + 1]), 1) } else { (s, 0) }
    } else if is_data_flag(tok) {
        if more { (with_data(s, t[i + 1]), 1) } else { (s, 0) }
    } else if tok == "-F"@ || tok == "--form"@ {
        if more { (with_form(s, t[i + 1]), 1) } else { (s, 0) }
    } else if tok == "-u"@ || tok == "--user"@ {
        if more { (with_header_line(s, basic_auth_line(t[i + 1])), 1) } else { (s, 0) }
    } else if tok == "-A"@ || tok == "--user-agent"@ {
        if more { (with_header(s, "user-agent"@, t[i + 1]), 1) } else { (s, 0) }
    } else if tok == "-b"@ || tok == "--cookie"@ {
        if more { (with_header(s, "cookie"@, t[i + 1]), 1) } else { (s, 0) }
    } else if tok == "--compressed"@ {
        (with_header(s, "accept-encoding"@, "gzip, deflate"@), 0)
    } else if is_ignored_flag(tok) {
        (s, 0)
    } else if starts_dash(tok) && !starts_double_dash(tok) {
        scan_cluster(t, tok.drop_first(), 0, s, i, 0)
    } else if !starts_double_dash(tok) && s.1 is None {
        (with_url(s, tok), 0)
    } else {
        (s, 0)
    }
}

/// The scan of the tokens from the `i`-th on.
pub open spec fn scan_from(t: Seq<Seq<char>>, s: CurlScan, i: int) -> CurlScan
    decreases t.len() - i,
{
    if i < 0 || i >= t.len() {
        s
    } else {
        let (s2, used) = scan_token(t, s, i);
        let next = if i + used + 1 <= t.len() { i + used + 1 } else { t.len() as int };
        scan_from(t, s2, next)
    }
}

/// Form fields joined with `&`.
pub open spec fn join_fields(parts: Seq<Seq<char>>) -> Seq<char>
    decreases parts.len(),
{
    if parts.len() == 0 {
        Seq::empty()
    } else if parts.len() == 1 {
        parts[0]
    } else {
        join_fields(parts.drop_last()).push('&') + parts.last()
    }
}

/// The request that a finished scan describes: its URL (trimmed of blanks,
/// then of backticks), headers, body and method; none without a URL.  The
/// data is the body; failing that, the form fields joined with `&`, sent
/// as a urlencoded form.  A body turns a `GET` into a `POST`.
pub open spec fn scan_request(s: CurlScan) -> Option<(Seq<char>, Map<Seq<char>, Seq<char>>, Seq<u8>, HttpMethod)> {
    match s.1 {
        None => None,
        Some(u) => {
            let url = trim_char(trim_ws(u), '`');
            let (headers, body) = match s.3 {
                Some(d) => (s.2, vstd::utf8::encode_utf8(d)),
                None => if s.4.len() > 0 {
                    (
                        s.2.insert("Content-Type"@, "application/x-www-form-urlencoded"@),
                        vstd::utf8::encode_utf8(join_fields(s.4)),
                    )
                } else {
                    (s.2, Seq::empty())
                },
            };
            let method = if body.len() > 0 && s.0 == HttpMethod::GET {
                HttpMethod::POST
            } else {
                s.0
            };
            Some((url, headers, body, method))
        },
    }
}

/// The request that a curl command line describes.
pub open spec fn curl_request(cmd: Seq<char>) -> Option<(Seq<char>, Map<Seq<char>, Seq<char>>, Seq<u8>, HttpMethod)> {
    scan_request(scan_from(curl_tokens(cmd), scan_start(), 0))
}

} // verus!

verus! {

broadcast use vstd::std_specs::hash::group_hash_axioms;

/// An optional character vector, viewed.
pub open spec fn opt_chars(o: Option<Vec<char>>) -> Option<Seq<char>> {
    match o {
        Some(v) => Some(v@),
        None => None,
    }
}

/// The running state of `HttpTool::from_curl`.
struct Scanner {
    method: HttpMethod,
    url: Option<Vec<char>>,
    headers: HashMap<String, String>,
    data: Option<Vec<char>>,
    form: Vec<Vec<char>>,
}

impl View for Scanner {
    type V = CurlScan;

    closed spec fn view(&self) -> CurlScan {
        (self.method, opt_chars(self.url), self.headers.deep_view(), opt_chars(self.data), views(self.form@))
    }
}

fn add_header_line(headers: &mut HashMap<String, String>, line: &Vec<char>)
    ensures
        final(headers).deep_view() == map_with_line(old(headers).deep_view(), line@),
{
    match parse_header(line) {
        Some((k, v)) => {
            let key = lowercase(k.as_str());
            insert_text(headers, key, v);
        },
        None => {},
    }
}

fn copy_chars(v: &Vec<char>) -> (r: Vec<char>)
    ensures
        r@ == v@,
{
    slice_chars(v, 0, v.len())
}

/// Reads a cluster of short options such as `-sXH`.
fn scan_cluster_exec(t: &Vec<Vec<char>>, flag: &Vec<char>, sc: &mut Scanner, i: usize) -> (used: usize)
    requires
        i < t@.len(),
    ensures
        (final(sc)@, used as nat) == scan_cluster(views(t@), flag@, 0, old(sc)@, i as int, 0),
        i + used < t@.len(),
{
    let ghost tv = views(t@);
    let ghost goal = scan_cluster(tv, flag@, 0, sc@, i as int, 0);
    let mut taken: usize = 0;
    let mut k: usize = 0;
    let n = t.len();
    while k < flag.len()
        invariant
            n == t@.len(),
            i < t@.len(),
            tv == views(t@),
            k <= flag@.len(),
            i + taken < t@.len(),
            scan_cluster(tv, flag@, k as int, sc@, i as int, taken as nat) == goal,
        decreases flag@.len() - k,
    {
        let c = flag[k];
        let j = i + taken;
        let more = j < t.len() - 1;
        if c == 'X' && more {
            sc.method = HttpMethod::from_str(string_of(&t[j + 1]).as_str());
            taken = taken + 1;
        } else if c == 'H' && more {
            add_header_line(&mut sc.headers, &t[j + 1]);
            taken = taken + 1;
        } else if c == 'd' && more {
            sc.data = Some(copy_chars(&t[j + 1]));
            taken = taken + 1;
        }
        k = k + 1;
    }
    taken
}

/// Reads the token at `i`.
fn scan_token_exec(t: &Vec<Vec<char>>, sc: &mut Scanner, i: usize) -> (used: usize)
    requires
        i < t@.len(),
    ensures
        (final(sc)@, used as nat) == scan_token(views(t@), old(sc)@, i as int),
        i + used < t@.len(),
{
    let tok = &t[i];
    let more = i < t.len() - 1;
    if is_word(tok, "curl") || is_word(tok, "curl.exe") {
        0
    } else if is_word(tok, "-X") || is_word(tok, "--request") {
        if more {
            sc.method = HttpMethod::from_str(string_of(&t[i + 1]).as_str());
            1
        } else {
            0
        }
    } else if is_word(tok, "-H") || is_word(tok, "--header") {
        if more {
            add_header_line(&mut sc.headers, &t[i + 1]);
            1
        } else {
            0
        }
    } else if is_word(tok, "-d") || is_word(tok, "--data") || is_word(tok, "--data-ascii")
        || is_word(tok, "--data-binary") {
        if more {
            sc.data = Some(copy_chars(&t[i + 1]));
            1
        } else {
            0
        }
    } else if is_word(tok, "-F") || is_word(tok, "--form") {
        if more {
            let ghost before = sc.form@;
            sc.form.push(copy_chars(&t[i + 1]));
            assert(views(sc.form@) =~= views(before).push(t@[i + 1]@));
            1
        } else {
            0
        }
    } else if is_word(tok, "-u") || is_word(tok, "--user") {
        if more {
            let encoded = base64_encode(string_of(&t[i + 1]).as_str());
            let mut line = chars_of("Authorization: Basic ");
            let mut tail = chars_of(encoded.as_str());
            line.append(&mut tail);
            add_header_line(&mut sc.headers, &line);
            1
        } else {
            0
        }
    } else if is_word(tok, "-A") || is_word(tok, "--user-agent") {
        if more {
            insert_text(&mut sc.headers, "user-agent".to_owned(), string_of(&t[i + 1]));
            1
        } else {
            0
        }
    } else if is_word(tok, "-b") || is_word(tok, "--cookie") {
        if more {
            insert_text(&mut sc.headers, "cookie".to_owned(), string_of(&t[i + 1]));
            1
        } else {
            0
        }
    } else if is_word(tok, "--compressed") {
        insert_text(&mut sc.headers, "accept-encoding".to_owned(), "gzip, deflate".to_owned());
        0
    } else if is_word(tok, "-k") || is_word(tok, "--insecure") || is_word(tok, "-s") || is_word(
        tok,
        "--silent",
    ) || is_word(tok, "-v") || is_word(tok, "--verbose") || is_word(tok, "-i") || is_word(
        tok,
        "--include",
    ) || is_word(tok, "-L") || is_word(tok, "--location") || is_word(tok, "-f") || is_word(
        tok,
        "--fail",
    ) || is_word(tok, "--max-time") || is_word(tok, "--connect-timeout") {
        0
    } else {
        let dash = tok.len() > 0 && tok[0] == '-';
        let double_dash = tok.len() > 1 && tok[0] == '-' && tok[1] == '-';
        if dash && !double_dash {
            let flag = slice_chars(tok, 1, tok.len());
            assert(flag@ =~= tok@.drop_first());
            scan_cluster_exec(t, &flag, sc, i)
        } else if !double_dash && sc.url.is_none() {
            sc.url = Some(copy_chars(tok));
            0
        } else {
            0
        }
    }
}

/// Joins form fields with `&`.
fn join_form(parts: &Vec<Vec<char>>) -> (r: Vec<char>)
    ensures
        r@ == join_fields(views(parts@)),
{
    let mut r: Vec<char> = Vec::new();
    let mut i: usize = 0;
    while i < parts.len()
        invariant
            i <= parts@.len(),
            r@ == join_fields(views(parts@).take(i as int)),
        decreases parts@.len() - i,
    {
        let ghost prev = views(parts@).take(i as int);
        assert(views(parts@).take(i + 1).drop_last() =~= prev);
        if i > 0 {
            r.push('&');
        }
        let mut part = copy_chars(&parts[i]);
        r.append(&mut part);
        proof {
            if i == 0 {
                assert(r@ =~= join_fields(views(parts@).take(1)));
            } else {
                assert(r@ =~= join_fields(views(parts@).take(i + 1)));
            }
        }
        i = i + 1;
    }
    assert(views(parts@).take(i as int) =~= views(parts@));
    r
}

/// A request to send: URL, method, headers, query parameters and body.
#[derive(Debug, Clone)]
pub struct HttpTool {
    pub params: HashMap<String, String>,
    pub headers: HashMap<String, String>,
    pub body: Vec<u8>,
    pub method: HttpMethod,
    pub url: String,
}

impl Default for HttpTool {
    fn default() -> (r: Self)
        ensures
            r.params@.len() == 0,
            r.headers@.len() == 0,
            r.body@.len() == 0,
            r.method == HttpMethod::GET,
            r.url@.len() == 0,
    {
        HttpTool {
            params: HashMap::new(),
            headers: HashMap::new(),
            body: Vec::new(),
            method: HttpMethod::GET,
            url: String::new(),
        }
    }
}

impl HttpTool {
    pub fn add_param(&mut self, key: &str, value: &str)
        ensures
            final(self).params.deep_view() == old(self).params.deep_view().insert(key@, value@),
            final(self).headers == old(self).headers,
            final(self).body == old(self).body,
            final(self).method == old(self).method,
            final(self).url == old(self).url,
    {
        insert_text(&mut self.params, key.to_owned(), value.to_owned());
    }

    pub fn add_header(&mut self, key: &str, value: &str)
        ensures
            final(self).headers.deep_view() == old(self).headers.deep_view().insert(key@, value@),
            final(self).params == old(self).params,
            final(self).body == old(self).body,
            final(self).method == old(self).method,
            final(self).url == old(self).url,
    {
        insert_text(&mut self.headers, key.to_owned(), value.to_owned());
    }

    pub fn set_params(&mut self, params: HashMap<String, String>)
        ensures
            *final(self) == (HttpTool { params, ..*old(self) }),
    {
        self.params = params;
    }

    pub fn set_headers(&mut self, headers: HashMap<String, String>)
        ensures
            *final(self) == (HttpTool { headers, ..*old(self) }),
    {
        self.headers = headers;
    }

    pub fn set_body(&mut self, body: Vec<u8>)
        ensures
            *final(self) == (HttpTool { body, ..*old(self) }),
    {
        self.body = body;
    }

    pub fn set_url(&mut self, url: &str)
        ensures
            final(self).url@ == url@,
            final(self).params == old(self).params,
            final(self).headers == old(self).headers,
            final(self).body == old(self).body,
            final(self).method == old(self).method,
    {
        self.url = url.to_owned();
    }

    /// Reads a request out of a curl command line; fails when the line
    /// names no URL.
    pub fn from_curl(curl_command: &str) -> (r: Result<Self, String>)
        ensures
            match curl_request(curl_command@) {
                None => r is Err && r->Err_0@ == "URL not found in curl command"@,
                Some((url, headers, body, method)) => r is Ok && r->Ok_0.url@ == url
                    && r->Ok_0.headers.deep_view() == headers && r->Ok_0.body@ == body
                    && r->Ok_0.method == method && r->Ok_0.params@.len() == 0,
            },
    {
        let tokens = tokenize_curl(curl_command);
        let ghost tv = views(tokens@);
        let mut sc = Scanner {
            method: HttpMethod::GET,
            url: None,
            headers: HashMap::new(),
            data: None,
            form: Vec::new(),
        };
        proof {
            vstd::std_specs::hash::lemma_hashmap_deepview_dom(sc.headers);
            assert(sc.headers.deep_view() =~= Map::<Seq<char>, Seq<char>>::empty());
            assert(views(sc.form@) =~= Seq::<Seq<char>>::empty());
        }
        let mut i: usize = 0;
        while i < tokens.len()
            invariant
                tv == views(tokens@),
                tv == curl_tokens(curl_command@),
                i <= tokens@.len(),
                scan_from(tv, sc@, i as int) == scan_from(tv, scan_start(), 0),
            decreases tokens@.len() - i,
        {
            let used = scan_token_exec(&tokens, &mut sc, i);
            i = i + used + 1;
        }
        let Scanner { method, url, headers, data, form } = sc;
        let mut headers = headers;
        let url_chars = match url {
            Some(u) => u,
            None => {
                return Err("URL not found in curl command".to_owned());
            },
        };
        let trimmed = trim_white_space(&url_chars);
        let url = string_of(&trim_matches_char(&trimmed, '`'));
        let body: Vec<u8> = match data {
            Some(d) => string_of(&d).as_str().as_bytes_vec(),
            None => {
                if form.len() > 0 {
                    let joined = string_of(&join_form(&form));
                    insert_text(
                        &mut headers,
                        "Content-Type".to_owned(),
                        "application/x-www-form-urlencoded".to_owned(),
                    );
                    joined.as_str().as_bytes_vec()
                } else {
                    Vec::new()
                }
            },
        };
        let method = if body.len() > 0 && method == HttpMethod::GET {
            HttpMethod::POST
        } else {
            method
        };
        Ok(HttpTool { params: HashMap::new(), headers, body, method, url })
    }
}

} // verus!
