//! Parsing of the raw HTTP upgrade request: the header lines after the
//! request line, the body after the blank line, and the lookup of the
//! WebSocket key among the parsed headers.

use vstd::prelude::*;

use crate::websocket_error::HandshakeErrors;

verus! {

/// One parsed HTTP header: the name, lower-cased, and the value with
/// leading whitespace removed.
#[derive(Debug)]
pub struct Header {
    pub key: String,
    pub value: String,
}

/// The index of the first occurrence of `c` in `s` at or after `from`,
/// or `None` when there is none.
pub open spec fn spec_find(s: Seq<char>, c: char, from: int) -> Option<int>
    decreases s.len() - from
{
    if from < 0 || from >= s.len() {
        None
    } else if s[from] == c {
        Some(from)
    } else {
        spec_find(s, c, from + 1)
    }
}

/// What `spec_find` returns is the first occurrence: the character is
/// there, and no position before it (from `from` on) holds it.
pub proof fn lemma_find_characterization(s: Seq<char>, c: char, from: int)
    requires
        0 <= from <= s.len(),
    ensures
        match spec_find(s, c, from) {
            Some(i) => from <= i < s.len() && s[i] == c && (forall|j: int|
                from <= j < i ==> s[j] != c),
            None => forall|j: int| from <= j < s.len() ==> s[j] != c,
        },
    decreases s.len() - from,
{
    if from < s.len() && s[from] != c {
        lemma_find_characterization(s, c, from + 1);
    }
}

/// Finds the first occurrence of `c` in `s` at or after index `from`
/// (an index into the characters of `s`, not its bytes).
fn find_char(s: &str, c: char, from: usize) -> (r: Option<usize>)
    ensures
        match r {
            Some(i) => spec_find(s@, c, from as int) == Some(i as int) && i <= s@.len(),
            None => spec_find(s@, c, from as int) is None,
        },
    decreases s@.len() - from,
{
    let n = s.unicode_len();
    if from >= n {
        None
    } else if s.get_char(from) == c {
        Some(from)
    } else {
        find_char(s, c, from + 1)
    }
}

/// Whether two strings hold the same characters.
fn str_eq(a: &str, b: &str) -> (r: bool)
    ensures
        r == (a@ == b@),
{
    let na = a.unicode_len();
    let nb = b.unicode_len();
    if na != nb {
        return false;
    }
    let mut i: usize = 0;
    while i < na
        invariant
            na == a@.len() && na == b@.len(),
            i <= na,
            forall|j: int| 0 <= j < i ==> a@[j] == b@[j],
        decreases na - i,
    {
        if s_get(a, i) != s_get(b, i) {
            return false;
        }
        i = i + 1;
    }
    assert(a@ =~= b@);
    true
}

/// Reads one character of `s` by character index.
fn s_get(s: &str, i: usize) -> (c: char)
    requires
        i < s@.len(),
    ensures
        c == s@[i as int],
{
    s.get_char(i)
}

/// The character with an ASCII upper-case letter folded to its
/// lower-case counterpart; any other character is unchanged. Header
/// names are ASCII, so this is the case folding header lookup needs.
pub open spec fn spec_lower_char(c: char) -> char {
    if 65 <= c as u32 && c as u32 <= 90 {
        (((c as u32) + 32) as u32) as char
    } else {
        c
    }
}

/// The string with every ASCII upper-case letter folded to lower case.
pub open spec fn spec_lower(s: Seq<char>) -> Seq<char> {
    s.map_values(|c: char| spec_lower_char(c))
}

fn lower_char(c: char) -> (r: char)
    ensures
        r == spec_lower_char(c),
{
    let u = c as u32;
    if 65 <= u && u <= 90 {
        ((u + 32) as u8) as char
    } else {
        c
    }
}

/// Relies on `String::push`: appends exactly the one character.
#[verifier::external_body]
fn push_char(s: &mut String, c: char)
    ensures
        final(s)@ == old(s)@.push(c),
{
    s.push(c);
}

/// Builds the string with every ASCII upper-case letter of `s` folded
/// to lower case.
fn lowercase_str(s: &str) -> (r: String)
    ensures
        r@ == spec_lower(s@),
{
    let n = s.unicode_len();
    let mut out = String::new();
    let mut i: usize = 0;
    while i < n
        invariant
            n == s@.len(),
            i <= n,
            out@.len() == i,
            forall|j: int| 0 <= j < i ==> out@[j] == spec_lower_char(s@[j]),
        decreases n - i,
    {
        let c = lower_char(s_get(s, i));
        push_char(&mut out, c);
        i = i + 1;
    }
    assert(out@ =~= spec_lower(s@));
    out
}

/// Whether `c` is the whitespace trimmed off the front of a header
/// value: a space or a horizontal tab.
pub open spec fn spec_is_space(c: char) -> bool {
    c == ' ' || c == '\t'
}

/// The string with its leading spaces and tabs removed.
pub open spec fn spec_ltrim(s: Seq<char>) -> Seq<char>
    decreases s.len(),
{
    if s.len() > 0 && spec_is_space(s[0]) {
        spec_ltrim(s.subrange(1, s.len() as int))
    } else {
        s
    }
}

fn ltrim_sub<'a>(s: &'a str) -> (r: &'a str)
    ensures
        r@ == spec_ltrim(s@),
    decreases s@.len(),
{
    let n = s.unicode_len();
    if n > 0 {
        let c = s_get(s, 0);
        if c == ' ' || c == '\t' {
            return ltrim_sub(s.substring_char(1, n));
        }
    }
    s
}

/// The string with a single trailing carriage return removed, as the
/// line splitter leaves a line that ended in the two-byte CRLF.
pub open spec fn spec_strip_cr(s: Seq<char>) -> Seq<char> {
    if s.len() > 0 && s[s.len() - 1] == '\r' {
        s.subrange(0, s.len() - 1)
    } else {
        s
    }
}

/// The string with its leading NUL padding removed.
pub open spec fn spec_trim_nul_front(s: Seq<char>) -> Seq<char>
    decreases s.len(),
{
    if s.len() > 0 && s[0] == '\0' {
        spec_trim_nul_front(s.subrange(1, s.len() as int))
    } else {
        s
    }
}

/// The string with its trailing NUL padding removed.
pub open spec fn spec_trim_nul_back(s: Seq<char>) -> Seq<char>
    decreases s.len(),
{
    if s.len() > 0 && s[s.len() - 1] == '\0' {
        spec_trim_nul_back(s.subrange(0, s.len() - 1))
    } else {
        s
    }
}

/// The string with NUL padding removed from both ends; a fixed-size
/// receive buffer pads what it holds with NUL bytes.
pub open spec fn spec_trim_nul(s: Seq<char>) -> Seq<char> {
    spec_trim_nul_back(spec_trim_nul_front(s))
}

fn trim_nul_front_sub<'a>(s: &'a str) -> (r: &'a str)
    ensures
        r@ == spec_trim_nul_front(s@),
    decreases s@.len(),
{
    let n = s.unicode_len();
    if n > 0 {
        if s_get(s, 0) == '\0' {
            return trim_nul_front_sub(s.substring_char(1, n));
        }
    }
    s
}

fn trim_nul_back_sub<'a>(s: &'a str) -> (r: &'a str)
    ensures
        r@ == spec_trim_nul_back(s@),
    decreases s@.len(),
{
    let n = s.unicode_len();
    if n > 0 {
        if s_get(s, n - 1) == '\0' {
            return trim_nul_back_sub(s.substring_char(0, n - 1));
        }
    }
    s
}

/// One header line split on its first colon: the name before the
/// colon lower-cased, the value after it left-trimmed. A line without
/// a colon is no header.
pub open spec fn spec_parse_header_line(line: Seq<char>) -> Option<(Seq<char>, Seq<char>)> {
    match spec_find(line, ':', 0) {
        None => None,
        Some(ci) => Some(
            (spec_lower(line.subrange(0, ci)), spec_ltrim(line.subrange(ci + 1, line.len() as int))),
        ),
    }
}

fn parse_header_line(line: &str) -> (r: Option<Header>)
    ensures
        match r {
            Some(h) => spec_parse_header_line(line@) == Some((h.key@, h.value@)),
            None => spec_parse_header_line(line@) is None,
        },
{
    match find_char(line, ':', 0) {
        None => None,
        Some(ci) => {
            proof {
                lemma_find_characterization(line@, ':', 0);
            }
            let n = line.unicode_len();
            let key_part = line.substring_char(0, ci);
            let value_part = line.substring_char(ci + 1, n);
            Some(Header { key: lowercase_str(key_part), value: ltrim_sub(value_part).to_owned() })
        },
    }
}

/// The key and value views of a sequence of parsed headers.
pub open spec fn spec_header_views(headers: Seq<Header>) -> Seq<(Seq<char>, Seq<char>)> {
    headers.map_values(|h: Header| (h.key@, h.value@))
}

/// The headers parsed from the lines of `s` starting at character
/// position `pos`, up to the first empty line (or the end of the
/// text); `None` when a line before that has no colon.
pub open spec fn spec_headers_from(s: Seq<char>, pos: int) -> Option<Seq<(Seq<char>, Seq<char>)>>
    recommends
        0 <= pos <= s.len(),
    decreases s.len() - pos,
    via spec_headers_from_dec
{
    let line_end = spec_find(s, '\n', pos);
    let raw = match line_end {
        Some(e) => s.subrange(pos, e),
        None => s.subrange(pos, s.len() as int),
    };
    let line = spec_strip_cr(raw);
    if line.len() == 0 {
        Some(Seq::empty())
    } else {
        match spec_parse_header_line(line) {
            None => None,
            Some(h) => match line_end {
                None => Some(seq![h]),
                Some(e) => match spec_headers_from(s, e + 1) {
                    None => None,
                    Some(rest) => Some(seq![h] + rest),
                },
            },
        }
    }
}

#[via_fn]
proof fn spec_headers_from_dec(s: Seq<char>, pos: int) {
    if 0 <= pos <= s.len() {
        lemma_find_characterization(s, '\n', pos);
    }
}

fn parse_headers_from(data: &str, pos: usize) -> (r: Result<Vec<Header>, HandshakeErrors>)
    requires
        pos <= data@.len(),
    ensures
        match r {
            Ok(v) => spec_headers_from(data@, pos as int) == Some(spec_header_views(v@)),
            Err(e) => spec_headers_from(data@, pos as int) is None && e
                == HandshakeErrors::ParseError,
        },
    decreases data@.len() - pos,
{
    let n = data.unicode_len();
    let line_end = find_char(data, '\n', pos);
    proof {
        lemma_find_characterization(data@, '\n', pos as int);
    }
    let raw_end = match line_end {
        Some(e) => e,
        None => n,
    };
    let stripped_end = if raw_end > pos && s_get(data, raw_end - 1) == '\r' {
        raw_end - 1
    } else {
        raw_end
    };
    proof {
        let raw = data@.subrange(pos as int, raw_end as int);
        assert(spec_strip_cr(raw) =~= data@.subrange(pos as int, stripped_end as int));
    }
    if stripped_end == pos {
        let empty: Vec<Header> = Vec::new();
        assert(spec_header_views(empty@) =~= Seq::<(Seq<char>, Seq<char>)>::empty());
        return Ok(empty);
    }
    let line_str = data.substring_char(pos, stripped_end);
    let header = match parse_header_line(line_str) {
        None => {
            return Err(HandshakeErrors::ParseError);
        },
        Some(h) => h,
    };
    match line_end {
        None => {
            let ghost hk = header.key@;
            let ghost hv = header.value@;
            let mut v: Vec<Header> = Vec::new();
            v.push(header);
            assert(spec_header_views(v@) =~= seq![(hk, hv)]);
            Ok(v)
        },
        Some(e) => {
            let ghost hk = header.key@;
            let ghost hv = header.value@;
            match parse_headers_from(data, e + 1) {
                Err(err) => Err(err),
                Ok(mut rest) => {
                    let ghost rest_views = spec_header_views(rest@);
                    rest.insert(0, header);
                    assert(spec_header_views(rest@) =~= seq![(hk, hv)] + rest_views);
                    Ok(rest)
                },
            }
        },
    }
}

/// The header section of a raw request: the lines after the first
/// one, up to the first empty line, each split on its first colon;
/// `None` when one of those lines has no colon.
pub open spec fn spec_http_headers(s: Seq<char>) -> Option<Seq<(Seq<char>, Seq<char>)>> {
    match spec_find(s, '\n', 0) {
        None => Some(Seq::empty()),
        Some(e) => spec_headers_from(s, e + 1),
    }
}

/// Parses the header lines of a raw request: every line after the
/// request line up to the first empty line, split on its first colon,
/// with the name lower-cased and the value left-trimmed. Fails with
/// `ParseError` when such a line has no colon.
pub fn get_http_headers(data: &str) -> (r: Result<Vec<Header>, HandshakeErrors>)
    ensures
        match r {
            Ok(v) => spec_http_headers(data@) == Some(spec_header_views(v@)),
            Err(e) => spec_http_headers(data@) is None && e == HandshakeErrors::ParseError,
        },
{
    let n = data.unicode_len();
    match find_char(data, '\n', 0) {
        None => {
            let empty: Vec<Header> = Vec::new();
            assert(spec_header_views(empty@) =~= Seq::<(Seq<char>, Seq<char>)>::empty());
            Ok(empty)
        },
        Some(e) => {
            proof {
                lemma_find_characterization(data@, '\n', 0);
            }
            parse_headers_from(data, e + 1)
        },
    }
}

/// The body text collected from the lines of `s` starting at
/// character position `pos`: lines are skipped until the first empty
/// one, and from there on each line is kept with its NUL padding
/// trimmed, all concatenated without separators. `in_body` says
/// whether the empty line was already seen.
pub open spec fn spec_body_from(s: Seq<char>, pos: int, in_body: bool) -> Seq<char>
    recommends
        0 <= pos <= s.len(),
    decreases s.len() - pos,
    via spec_body_from_dec
{
    let line_end = spec_find(s, '\n', pos);
    let raw = match line_end {
        Some(e) => s.subrange(pos, e),
        None => s.subrange(pos, s.len() as int),
    };
    let line = spec_strip_cr(raw);
    let contribution = if in_body {
        spec_trim_nul(line)
    } else {
        Seq::<char>::empty()
    };
    let next = in_body || line.len() == 0;
    match line_end {
        None => contribution,
        Some(e) => contribution + spec_body_from(s, e + 1, next),
    }
}

#[via_fn]
proof fn spec_body_from_dec(s: Seq<char>, pos: int, in_body: bool) {
    if 0 <= pos <= s.len() {
        lemma_find_characterization(s, '\n', pos);
    }
}

/// The body of a raw request: everything on the lines after the
/// first empty line, NUL padding trimmed off each line, concatenated.
pub open spec fn spec_http_body(s: Seq<char>) -> Seq<char> {
    spec_body_from(s, 0, false)
}

fn body_from(data: &str, pos: usize, in_body: bool) -> (r: String)
    requires
        pos <= data@.len(),
    ensures
        r@ == spec_body_from(data@, pos as int, in_body),
    decreases data@.len() - pos,
{
    let n = data.unicode_len();
    let line_end = find_char(data, '\n', pos);
    proof {
        lemma_find_characterization(data@, '\n', pos as int);
    }
    let raw_end = match line_end {
        Some(e) => e,
        None => n,
    };
    let stripped_end = if raw_end > pos && s_get(data, raw_end - 1) == '\r' {
        raw_end - 1
    } else {
        raw_end
    };
    proof {
        let raw = data@.subrange(pos as int, raw_end as int);
        assert(spec_strip_cr(raw) =~= data@.subrange(pos as int, stripped_end as int));
    }
    let contribution: String = if in_body {
        let line_str = data.substring_char(pos, stripped_end);
        trim_nul_back_sub(trim_nul_front_sub(line_str)).to_owned()
    } else {
        String::new()
    };
    let next = in_body || stripped_end == pos;
    match line_end {
        None => contribution,
        Some(e) => contribution.concat(body_from(data, e + 1, next).as_str()),
    }
}

/// Collects the body of a raw request: lines are skipped up to the
/// first empty line, and everything after it is concatenated with
/// the NUL padding of the receive buffer trimmed off each line.
pub fn get_http_body(data: &str) -> (r: String)
    ensures
        r@ == spec_http_body(data@),
{
    body_from(data, 0, false)
}

/// The value of the first header named `key`, or `None` when no
/// header has that name.
pub open spec fn spec_find_header(
    headers: Seq<(Seq<char>, Seq<char>)>,
    key: Seq<char>,
) -> Option<Seq<char>>
    decreases headers.len(),
{
    if headers.len() == 0 {
        None
    } else if headers[0].0 == key {
        Some(headers[0].1)
    } else {
        spec_find_header(headers.subrange(1, headers.len() as int), key)
    }
}

fn find_header_value(headers: &Vec<Header>, from: usize, key: &str) -> (r: Option<String>)
    requires
        from <= headers@.len(),
    ensures
        match r {
            Some(v) => spec_find_header(spec_header_views(headers@).skip(from as int), key@)
                == Some(v@),
            None => spec_find_header(spec_header_views(headers@).skip(from as int), key@) is None,
        },
    decreases headers@.len() - from,
{
    let ghost views = spec_header_views(headers@);
    if from >= headers.len() {
        assert(views.skip(from as int) =~= Seq::<(Seq<char>, Seq<char>)>::empty());
        return None;
    }
    assert(views.skip(from as int)[0] == views[from as int]);
    if str_eq(headers[from].key.as_str(), key) {
        Some(headers[from].value.clone())
    } else {
        let r = find_header_value(headers, from + 1, key);
        assert(views.skip(from as int).subrange(1, views.skip(from as int).len() as int)
            =~= views.skip(from as int + 1));
        r
    }
}

/// The WebSocket key of a parsed header section: the value of
/// `sec-websocket-key`, but only when `sec-websocket-version` is also
/// present and is exactly `13`; `None` otherwise.
pub open spec fn spec_socket_key(headers: Seq<(Seq<char>, Seq<char>)>) -> Option<Seq<char>> {
    match spec_find_header(headers, "sec-websocket-key"@) {
        None => None,
        Some(k) => match spec_find_header(headers, "sec-websocket-version"@) {
            None => None,
            Some(v) => if v == "13"@ {
                Some(k)
            } else {
                None
            },
        },
    }
}

/// Looks up the client's WebSocket key: returns the value of the
/// first `sec-websocket-key` header, and only when the first
/// `sec-websocket-version` header is present and exactly `13`;
/// `None` otherwise, which callers treat as an invalid handshake.
pub fn get_socket_key(headers: Vec<Header>) -> (r: Option<String>)
    ensures
        match r {
            Some(k) => spec_socket_key(spec_header_views(headers@)) == Some(k@),
            None => spec_socket_key(spec_header_views(headers@)) is None,
        },
{
    let ghost views = spec_header_views(headers@);
    proof {
        assert(views.skip(0) =~= views);
    }
    let socket_key = find_header_value(&headers, 0, "sec-websocket-key");
    let socket_version = find_header_value(&headers, 0, "sec-websocket-version");
    match (socket_key, socket_version) {
        (Some(key), Some(version)) => {
            if str_eq(version.as_str(), "13") {
                Some(key)
            } else {
                None
            }
        },
        _ => None,
    }
}

} // verus!
