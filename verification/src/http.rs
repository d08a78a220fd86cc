//! The HTTP/1.1 framing that ES9+ travels in: one POST, and one answer that is
//! read whole.

use crate::es9p::{Es9pError, Es9pFault};
use crate::octets::{copy_of, copy_range, push_all};
use crate::text::{
    chars_of, contains_text, cut_at, decimal, find, find_octets, first_index, first_match,
    hex_number_in, holds_text, lemma_first_index, lemma_first_match, lossy, lossy_text, lower,
    lowered_chars, number_in, opt_text, owned, parse_hex_number, parse_number, pieces,
    push_decimal, quoted, quoted_text, same_text, slices, split, split_at_run, split_words,
    string_of, trim, trimmed, words,
};
use vstd::prelude::*;

verus! {

/// A parsed HTTP/1.1 answer.
#[derive(Clone, Debug, PartialEq, Eq)]
pub struct HttpResponse {
    pub status: u16,
    /// Lowercased header names to values.
    pub headers: Vec<(String, String)>,
    pub body: Vec<u8>,
    pub tls_version: Option<String>,
}

/// An answer, by what its texts say.
#[verifier::ext_equal]
pub struct HttpModel {
    pub status: u16,
    pub headers: Seq<(Seq<char>, Seq<char>)>,
    pub body: Seq<u8>,
    pub tls_version: Option<Seq<char>>,
}

/// What headers say.
pub open spec fn header_models(headers: Seq<(String, String)>) -> Seq<(Seq<char>, Seq<char>)> {
    headers.map_values(|header: (String, String)| (header.0@, header.1@))
}

impl View for HttpResponse {
    type V = HttpModel;

    open spec fn view(&self) -> HttpModel {
        HttpModel {
            status: self.status,
            headers: header_models(self.headers@),
            body: self.body@,
            tls_version: opt_text(self.tls_version),
        }
    }
}

impl Default for HttpResponse {
    fn default() -> (response: Self)
        ensures
            response@ == (HttpModel {
                status: 0,
                headers: Seq::empty(),
                body: Seq::empty(),
                tls_version: None,
            }),
    {
        let response = HttpResponse {
            status: 0,
            headers: Vec::new(),
            body: Vec::new(),
            tls_version: None,
        };
        proof {
            assert(response@ =~= (HttpModel {
                status: 0,
                headers: Seq::empty(),
                body: Seq::empty(),
                tls_version: None,
            }));
        }
        response
    }
}

/// The octets that end a line.
pub open spec fn line_break() -> Seq<u8> {
    seq![13u8, 10u8]
}

/// The octets that end a head.
pub open spec fn head_break() -> Seq<u8> {
    seq![13u8, 10u8, 13u8, 10u8]
}

/// The characters that end a line.
pub open spec fn line_break_chars() -> Seq<char> {
    seq!['\r', '\n']
}

/// The value of the first header with a name.
pub open spec fn header_value(headers: Seq<(Seq<char>, Seq<char>)>, name: Seq<char>) -> Option<
    Seq<char>,
>
    decreases headers.len(),
{
    if headers.len() == 0 {
        None
    } else if headers[0].0 == name {
        Some(headers[0].1)
    } else {
        header_value(headers.skip(1), name)
    }
}

/// One header line: a name in lower case and a value, both without the space
/// around them. A line without a colon is none.
pub open spec fn header_in(line: Seq<char>) -> Option<(Seq<char>, Seq<char>)> {
    let n = first_index(line, ':');
    if n < line.len() {
        Some((lower(trimmed(line.take(n))), trimmed(line.skip(n + 1))))
    } else {
        None
    }
}

/// The headers in lines.
pub open spec fn headers_in(lines: Seq<Seq<char>>) -> Seq<(Seq<char>, Seq<char>)>
    decreases lines.len(),
{
    if lines.len() == 0 {
        Seq::empty()
    } else {
        match header_in(lines.last()) {
            Some(header) => headers_in(lines.drop_last()).push(header),
            None => headers_in(lines.drop_last()),
        }
    }
}

/// The status in a status line: its second word, where that is a number.
pub open spec fn status_in(line: Seq<char>) -> Option<u16> {
    let parts = words(line);
    if parts.len() < 2 {
        None
    } else {
        match number_in(parts[1], 0xffff) {
            Some(n) => Some(n as u16),
            None => None,
        }
    }
}

/// Whether a body comes in chunks.
pub open spec fn is_chunked(headers: Seq<(Seq<char>, Seq<char>)>) -> bool {
    exists|i: int|
        0 <= i < headers.len() && (#[trigger] headers[i]).0 == "transfer-encoding"@ && holds_text(
            headers[i].1,
            "chunked"@,
        )
}

/// The size that a chunk's first line gives.
pub open spec fn chunk_size(line: Seq<u8>) -> Seq<char> {
    trimmed(pieces(lossy(line), ';')[0])
}

/// A body put together from its chunks, or why that cannot be done.
pub open spec fn dechunked(body: Seq<u8>) -> Result<Seq<u8>, Seq<char>>
    decreases body.len(),
{
    match first_match(body, line_break(), 0) {
        None => Err("chunk size without terminator"@),
        Some(n) => {
            let size_text = chunk_size(body.take(n));
            let rest = body.skip(n + 2);
            match hex_number_in(size_text, usize::MAX as nat) {
                None => Err("unreadable chunk size "@ + quoted(size_text)),
                Some(size) => if size == 0 {
                    Ok(Seq::empty())
                } else if rest.len() < size + 2 {
                    Err("chunk shorter than its declared size"@)
                } else {
                    proof {
                        lemma_first_match(body, line_break(), 0);
                    }
                    match dechunked(rest.skip((size + 2) as int)) {
                        Err(e) => Err(e),
                        Ok(more) => Ok(rest.take(size as int) + more),
                    }
                },
            }
        },
    }
}

/// The body behind a head: put together where it comes in chunks, cut to the
/// length that is declared where one is.
pub open spec fn body_in(headers: Seq<(Seq<char>, Seq<char>)>, rest: Seq<u8>) -> Result<
    Seq<u8>,
    Seq<char>,
> {
    if is_chunked(headers) {
        dechunked(rest)
    } else {
        match header_value(headers, "content-length"@) {
            None => Ok(rest),
            Some(text) => match number_in(text, usize::MAX as nat) {
                None => Ok(rest),
                Some(length) => if rest.len() < length {
                    Err(
                        "body is "@ + decimal(rest.len()) + " bytes, Content-Length says "@
                            + decimal(length),
                    )
                } else {
                    Ok(rest.take(length as int))
                },
            },
        }
    }
}

/// The lines of the head in front of `split`.
pub open spec fn head_lines(raw: Seq<u8>, split: int) -> Seq<Seq<char>> {
    cut_at(lossy(raw.take(split)), line_break_chars())
}

/// The answer that octets are, or what is wrong with them.
pub open spec fn response_in(raw: Seq<u8>) -> Result<HttpModel, Seq<char>> {
    match first_match(raw, head_break(), 0) {
        None => Err("no header terminator"@),
        Some(split) => {
            let lines = head_lines(raw, split);
            match status_in(lines[0]) {
                None => Err("unreadable status line "@ + quoted(lines[0])),
                Some(status) => {
                    let headers = headers_in(lines.skip(1));
                    match body_in(headers, raw.skip(split + 4)) {
                        Err(e) => Err(e),
                        Ok(body) => Ok(HttpModel { status, headers, body, tls_version: None }),
                    }
                },
            }
        },
    }
}

fn malformed(reason: String) -> (error: Es9pError)
    ensures
        error@ == (Es9pFault::MalformedHttp { reason: reason@ }),
{
    Es9pError::MalformedHttp { reason }
}

fn crlf() -> (run: Vec<u8>)
    ensures
        run@ == line_break(),
{
    let mut run: Vec<u8> = Vec::new();
    run.push(13);
    run.push(10);
    proof {
        assert(run@ =~= line_break());
    }
    run
}

fn read_header(line: &[char]) -> (header: Option<(String, String)>)
    ensures
        match header {
            Some(h) => header_in(line@) == Some((h.0@, h.1@)),
            None => header_in(line@) is None,
        },
{
    let n: usize = find(line, ':');
    let total: usize = line.len();
    if n >= total {
        return None;
    }
    proof {
        lemma_first_index(line@, ':');
        assert(line@.subrange(0, n as int) =~= line@.take(n as int));
        assert(line@.subrange(n + 1, total as int) =~= line@.skip(n + 1));
    }
    let name: Vec<char> = lowered_chars(trim(&line[0..n]));
    let value: &[char] = trim(&line[n + 1..total]);
    Some((string_of(&name), string_of(value)))
}

fn read_headers(lines: &[&[char]]) -> (headers: Vec<(String, String)>)
    ensures
        header_models(headers@) == headers_in(slices(lines@)),
{
    let mut headers: Vec<(String, String)> = Vec::new();
    let mut i: usize = 0;
    let ghost all = slices(lines@);
    proof {
        assert(all.take(0) =~= Seq::empty());
        assert(header_models(headers@) =~= headers_in(all.take(0)));
    }
    while i < lines.len()
        invariant
            i <= lines@.len(),
            all == slices(lines@),
            header_models(headers@) == headers_in(all.take(i as int)),
        decreases lines@.len() - i,
    {
        proof {
            assert(all.take(i + 1).drop_last() =~= all.take(i as int));
            assert(all.take(i + 1).last() == lines@[i as int]@);
        }
        if let Some(header) = read_header(lines[i]) {
            let ghost before = header_models(headers@);
            let ghost shown = (header.0@, header.1@);
            headers.push(header);
            proof {
                assert(header_models(headers@) =~= before.push(shown));
            }
        }
        i = i + 1;
    }
    proof {
        assert(all.take(i as int) =~= all);
    }
    headers
}

fn read_status(line: &[char]) -> (status: Option<u16>)
    ensures
        status == status_in(line@),
{
    let parts: Vec<&[char]> = split_words(line);
    if parts.len() < 2 {
        return None;
    }
    proof {
        assert(slices(parts@)[1] == parts@[1]@);
    }
    match parse_number(parts[1], 0xffff) {
        Some(n) => Some(n as u16),
        None => None,
    }
}

fn find_chunked(headers: &Vec<(String, String)>) -> (yes: bool)
    ensures
        yes == is_chunked(header_models(headers@)),
{
    let ghost models = header_models(headers@);
    let mut i: usize = 0;
    while i < headers.len()
        invariant
            i <= headers@.len(),
            models == header_models(headers@),
            forall|j: int|
                0 <= j < i ==> !((#[trigger] models[j]).0 == "transfer-encoding"@ && holds_text(
                    models[j].1,
                    "chunked"@,
                )),
        decreases headers@.len() - i,
    {
        let value: Vec<char> = chars_of(headers[i].1.as_str());
        proof {
            assert(models[i as int] == (headers@[i as int].0@, headers@[i as int].1@));
        }
        if same_text(headers[i].0.as_str(), "transfer-encoding") && contains_text(
            &value,
            "chunked",
        ) {
            return true;
        }
        i = i + 1;
    }
    false
}

fn find_header<'a>(headers: &'a Vec<(String, String)>, name: &str) -> (value: Option<&'a str>)
    ensures
        match value {
            Some(v) => header_value(header_models(headers@), name@) == Some(v@),
            None => header_value(header_models(headers@), name@) is None,
        },
{
    let ghost models = header_models(headers@);
    let mut i: usize = 0;
    proof {
        assert(models.skip(0) =~= models);
    }
    while i < headers.len()
        invariant
            i <= headers@.len(),
            models == header_models(headers@),
            header_value(models.skip(i as int), name@) == header_value(models, name@),
        decreases headers@.len() - i,
    {
        proof {
            assert(models.skip(i as int).skip(1) =~= models.skip(i + 1));
            assert(models.skip(i as int)[0] == (headers@[i as int].0@, headers@[i as int].1@));
        }
        if same_text(headers[i].0.as_str(), name) {
            return Some(headers[i].1.as_str());
        }
        i = i + 1;
    }
    None
}

fn dechunk(body: &[u8]) -> (whole: Result<Vec<u8>, String>)
    ensures
        match whole {
            Ok(w) => dechunked(body@) == Ok::<Seq<u8>, Seq<char>>(w@),
            Err(e) => dechunked(body@) == Err::<Seq<u8>, Seq<char>>(e@),
        },
{
    let run: Vec<u8> = crlf();
    let mut out: Vec<u8> = Vec::new();
    let mut rest: &[u8] = body;
    loop
        invariant
            run@ == line_break(),
            dechunked(body@) == (match dechunked(rest@) {
                Err(e) => Err::<Seq<u8>, Seq<char>>(e),
                Ok(more) => Ok::<Seq<u8>, Seq<char>>(out@ + more),
            }),
        decreases rest@.len(),
    {
        let ghost before = rest@;
        let total: usize = rest.len();
        let n: usize = match find_octets(rest, &run) {
            Some(n) => n,
            None => return Err(owned("chunk size without terminator")),
        };
        proof {
            assert(rest@.subrange(0, n as int) =~= rest@.take(n as int));
        }
        let header: String = lossy_text(&rest[0..n]);
        let header_chars: Vec<char> = chars_of(header.as_str());
        let parts: Vec<&[char]> = split(&header_chars, ';');
        proof {
            assert(slices(parts@)[0] == parts@[0]@);
        }
        let size_chars: &[char] = trim(parts[0]);
        let size: usize = match parse_hex_number(size_chars, usize::MAX as u64) {
            Some(size) => size as usize,
            None => {
                let mut reason: String = owned("unreadable chunk size ");
                let size_text: String = string_of(size_chars);
                reason.append(quoted_text(size_text.as_str()).as_str());
                return Err(reason);
            },
        };
        let after: &[u8] = &rest[n + 2..total];
        proof {
            assert(after@ =~= before.skip(n + 2));
        }
        if size == 0 {
            proof {
                assert(out@ + Seq::<u8>::empty() =~= out@);
            }
            return Ok(out);
        }
        let left: usize = after.len();
        if left < 2 || left - 2 < size {
            return Err(owned("chunk shorter than its declared size"));
        }
        let ghost gathered = out@;
        push_all(&mut out, &after[0..size]);
        rest = &after[size + 2..left];
        proof {
            assert(after@.subrange(0, size as int) =~= after@.take(size as int));
            assert(rest@ =~= after@.skip(size + 2));
            if dechunked(rest@) is Ok {
                let more = dechunked(rest@)->Ok_0;
                assert(gathered + (after@.take(size as int) + more) =~= out@ + more);
            }
        }
    }
}

fn read_body(headers: &Vec<(String, String)>, rest: &[u8]) -> (body: Result<Vec<u8>, String>)
    ensures
        match body {
            Ok(b) => body_in(header_models(headers@), rest@) == Ok::<Seq<u8>, Seq<char>>(b@),
            Err(e) => body_in(header_models(headers@), rest@) == Err::<Seq<u8>, Seq<char>>(e@),
        },
{
    if find_chunked(headers) {
        return dechunk(rest);
    }
    match find_header(headers, "content-length") {
        None => Ok(copy_of(rest)),
        Some(text) => {
            let digits: Vec<char> = chars_of(text);
            match parse_number(&digits, usize::MAX as u64) {
                None => Ok(copy_of(rest)),
                Some(length) => {
                    if (rest.len() as u64) < length {
                        let mut reason: String = owned("body is ");
                        push_decimal(&mut reason, rest.len() as u64);
                        reason.append(" bytes, Content-Length says ");
                        push_decimal(&mut reason, length);
                        return Err(reason);
                    }
                    proof {
                        assert(rest@.subrange(0, length as int) =~= rest@.take(length as int));
                    }
                    Ok(copy_range(rest, 0, length as usize))
                },
            }
        },
    }
}

impl HttpResponse {
    /// The value of the first header with `name`, which is written in lower
    /// case.
    pub fn header(&self, name: &str) -> (value: Option<String>)
        ensures
            opt_text(value) == header_value(self@.headers, name@),
    {
        match find_header(&self.headers, name) {
            Some(value) => Some(owned(value)),
            None => None,
        }
    }

    /// Parse status line, headers and body.
    ///
    /// Chunked bodies are decoded here rather than refused: an SM-DP+ sits
    /// behind a gateway that is free to reframe, and an undecoded chunked body
    /// reaches the JSON parser as a hex length followed by a brace.
    pub fn parse(raw: &[u8]) -> (response: Result<Self, Es9pError>)
        ensures
            match response {
                Ok(r) => response_in(raw@) == Ok::<HttpModel, Seq<char>>(r@),
                Err(e) => response_in(raw@) is Err && e@ == (Es9pFault::MalformedHttp {
                    reason: response_in(raw@)->Err_0,
                }),
            },
    {
        let terminator: [u8; 4] = [13, 10, 13, 10];
        proof {
            assert(terminator@ =~= head_break());
        }
        let total: usize = raw.len();
        let at: usize = match find_octets(raw, &terminator) {
            Some(n) => n,
            None => return Err(malformed(owned("no header terminator"))),
        };
        proof {
            assert(raw@.subrange(0, at as int) =~= raw@.take(at as int));
        }
        let head: String = lossy_text(&raw[0..at]);
        let head_chars: Vec<char> = chars_of(head.as_str());
        let run: [char; 2] = ['\r', '\n'];
        proof {
            assert(run@ =~= line_break_chars());
        }
        let lines: Vec<&[char]> = split_at_run(&head_chars, &run);
        let count: usize = lines.len();
        let ghost all = slices(lines@);
        proof {
            assert(all == head_lines(raw@, at as int));
            assert(all[0] == lines@[0]@);
        }
        let status: u16 = match read_status(lines[0]) {
            Some(status) => status,
            None => {
                let line: String = string_of(lines[0]);
                let mut reason: String = owned("unreadable status line ");
                reason.append(quoted_text(line.as_str()).as_str());
                return Err(malformed(reason));
            },
        };
        let headers: Vec<(String, String)> = read_headers(&lines[1..count]);
        proof {
            assert(slices(lines@.subrange(1, count as int)) =~= all.skip(1));
            assert(raw@.subrange(at + 4, total as int) =~= raw@.skip(at + 4));
        }
        let body: Vec<u8> = match read_body(&headers, &raw[at + 4..total]) {
            Ok(body) => body,
            Err(reason) => return Err(malformed(reason)),
        };
        let response = HttpResponse { status, headers, body, tls_version: None };
        Ok(response)
    }
}

} // verus!
