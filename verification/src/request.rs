//! The request parser: turns the raw bytes of one read from the connection
//! into a method and a structured request.
//!
//! The grammar is deliberately lenient.  A buffer that is not valid UTF-8, or
//! holds no space, yields `Undefined` with an empty request.  Otherwise the
//! bytes before the first space name the method; only the exact tokens `GET`
//! and `POST` are recognized.  For a recognized method, the remainder is
//! split at the first newline: the path is the first whitespace-delimited
//! token before it, and every line after it that contains `": "` becomes a
//! header, later occurrences of a name shadowing earlier ones.  A blank-line
//! body boundary is not honoured: the body is always empty.

use vstd::prelude::*;

use crate::bytes::{bytes_eq, find_byte, find_byte_in, is_ws, lemma_find_byte, push_all};

verus! {

/// The method of a request; anything but `GET` and `POST` is `Undefined`.
#[derive(Clone, Copy, Debug, PartialEq, Eq, Structural)]
pub enum Request {
    Undefined,
    Get,
    Post,
}

/// One parsed header line.
pub struct Header {
    pub name: Vec<u8>,
    pub value: Vec<u8>,
}

/// The mathematical value of a `Header`.
pub struct HeaderModel {
    pub name: Seq<u8>,
    pub value: Seq<u8>,
}

impl View for Header {
    type V = HeaderModel;

    open spec fn view(&self) -> HeaderModel {
        HeaderModel { name: self.name@, value: self.value@ }
    }
}

/// A parsed request: path, headers and (always empty) body.
pub struct Http {
    pub path: Vec<u8>,
    pub headers: Option<Vec<Header>>,
    pub body: Vec<u8>,
}

/// The mathematical value of an `Http`.
pub struct HttpModel {
    pub path: Seq<u8>,
    pub headers: Option<Seq<HeaderModel>>,
    pub body: Seq<u8>,
}

/// The headers of a request, as a sequence of header models.
pub open spec fn headers_view(hs: Seq<Header>) -> Seq<HeaderModel> {
    hs.map_values(|h: Header| h@)
}

impl View for Http {
    type V = HttpModel;

    open spec fn view(&self) -> HttpModel {
        HttpModel {
            path: self.path@,
            headers: match self.headers {
                Some(hs) => Some(headers_view(hs@)),
                None => None,
            },
            body: self.body@,
        }
    }
}

/// The request that holds nothing: empty path, no headers, empty body.
pub open spec fn spec_empty_http() -> HttpModel {
    HttpModel { path: Seq::empty(), headers: None, body: Seq::empty() }
}

impl Http {
    /// An empty request.
    pub fn new() -> (r: Http)
        ensures
            r@ == spec_empty_http(),
    {
        Http { path: Vec::new(), headers: None, body: Vec::new() }
    }
}

/// The byte form of the token `GET`.
pub open spec fn spec_get_token() -> Seq<u8> {
    seq![71u8, 69, 84]
}

/// The byte form of the token `POST`.
pub open spec fn spec_post_token() -> Seq<u8> {
    seq![80u8, 79, 83, 84]
}

/// The method a token names: exactly `GET` and `POST`, anything else
/// `Undefined`.
pub open spec fn spec_parse_type(tok: Seq<u8>) -> Request {
    if tok == spec_get_token() {
        Request::Get
    } else if tok == spec_post_token() {
        Request::Post
    } else {
        Request::Undefined
    }
}

/// Maps a method token to the method it names.
pub fn parse_type(s: &[u8]) -> (r: Request)
    ensures
        r == spec_parse_type(s@),
{
    if s.len() == 3 && s[0] == 71 && s[1] == 69 && s[2] == 84 {
        proof {
            assert(s@ =~= spec_get_token());
        }
        Request::Get
    } else if s.len() == 4 && s[0] == 80 && s[1] == 79 && s[2] == 83 && s[3] == 84 {
        proof {
            assert(s@ =~= spec_post_token());
        }
        Request::Post
    } else {
        Request::Undefined
    }
}

/// Index of the first byte of `s` that is not ASCII whitespace; `s.len()`
/// when every byte is.
pub open spec fn first_non_ws(s: Seq<u8>) -> int
    decreases s.len(),
{
    if s.len() == 0 {
        0
    } else if !is_ws(s[0]) {
        0
    } else {
        1 + first_non_ws(s.drop_first())
    }
}

/// Index of the first ASCII-whitespace byte of `s`; `s.len()` when none is.
pub open spec fn first_ws(s: Seq<u8>) -> int
    decreases s.len(),
{
    if s.len() == 0 {
        0
    } else if is_ws(s[0]) {
        0
    } else {
        1 + first_ws(s.drop_first())
    }
}

/// `first_non_ws` points past a whitespace prefix, at a non-whitespace byte
/// or the end.
pub proof fn lemma_first_non_ws(s: Seq<u8>)
    ensures
        0 <= first_non_ws(s) <= s.len(),
        forall|j: int| 0 <= j < first_non_ws(s) ==> is_ws(s[j]),
        first_non_ws(s) < s.len() ==> !is_ws(s[first_non_ws(s)]),
    decreases s.len(),
{
    if s.len() == 0 {
    } else if !is_ws(s[0]) {
    } else {
        lemma_first_non_ws(s.drop_first());
        assert(forall|j: int| 1 <= j < s.len() ==> s[j] == s.drop_first()[j - 1]);
    }
}

/// `first_ws` points past a non-whitespace prefix, at a whitespace byte or
/// the end.
pub proof fn lemma_first_ws(s: Seq<u8>)
    ensures
        0 <= first_ws(s) <= s.len(),
        forall|j: int| 0 <= j < first_ws(s) ==> !is_ws(s[j]),
        first_ws(s) < s.len() ==> is_ws(s[first_ws(s)]),
    decreases s.len(),
{
    if s.len() == 0 {
    } else if is_ws(s[0]) {
    } else {
        lemma_first_ws(s.drop_first());
        assert(forall|j: int| 1 <= j < s.len() ==> s[j] == s.drop_first()[j - 1]);
    }
}

/// The first whitespace-delimited token of `s`: the bytes from the first
/// non-whitespace byte up to the next whitespace byte; empty when `s` is all
/// whitespace.
pub open spec fn spec_parse_path(s: Seq<u8>) -> Seq<u8> {
    let a = first_non_ws(s);
    let rest = s.skip(a);
    rest.take(first_ws(rest))
}

/// Extracts the first whitespace-delimited token of the request-line tail.
pub fn parse_path(s: &[u8]) -> (r: Vec<u8>)
    ensures
        r@ == spec_parse_path(s@),
{
    let ghost ga = first_non_ws(s@);
    let mut a: usize = 0;
    while a < s.len() && is_ws_byte(s[a])
        invariant
            0 <= a <= s@.len(),
            forall|j: int| 0 <= j < a ==> is_ws(s@[j]),
        decreases s@.len() - a,
    {
        a += 1;
    }
    proof {
        lemma_first_non_ws(s@);
        if ga < a {
            assert(!is_ws(s@[ga]));
        } else if ga > a {
            assert(is_ws(s@[a as int]));
        }
        assert(a as int == ga);
    }
    let ghost rest = s@.skip(a as int);
    let ghost gb = first_ws(rest);
    let mut b: usize = a;
    while b < s.len() && !is_ws_byte(s[b])
        invariant
            a <= b <= s@.len(),
            forall|j: int| a <= j < b ==> !is_ws(s@[j]),
        decreases s@.len() - b,
    {
        b += 1;
    }
    proof {
        lemma_first_ws(rest);
        assert(forall|k: int| 0 <= k < rest.len() ==> rest[k] == s@[a + k]);
        if gb < b - a {
            assert(!is_ws(rest[gb]));
        } else if gb > b - a {
            assert(is_ws(rest[b - a]));
        }
        assert(b - a == gb);
    }
    let mut r: Vec<u8> = Vec::new();
    push_all(&mut r, &s[a..b]);
    proof {
        assert(r@ =~= rest.take(gb));
    }
    r
}

/// Index of the first occurrence of the two-byte separator `": "` in `s`, or
/// -1 when it does not occur.
pub open spec fn find_sep(s: Seq<u8>) -> int
    decreases s.len(),
{
    if s.len() < 2 {
        -1
    } else if s[0] == 58 && s[1] == 32 {
        0
    } else {
        let r = find_sep(s.drop_first());
        if r < 0 {
            -1
        } else {
            r + 1
        }
    }
}

/// `find_sep` returns -1 exactly when `": "` is absent, and otherwise the
/// smallest index where it stands.
pub proof fn lemma_find_sep(s: Seq<u8>)
    ensures
        find_sep(s) == -1 ==> forall|i: int|
            0 <= i < s.len() - 1 ==> !(#[trigger] s[i] == 58 && s[i + 1] == 32),
        find_sep(s) != -1 ==> 0 <= find_sep(s) < s.len() - 1 && s[find_sep(s)] == 58
            && s[find_sep(s) + 1] == 32 && forall|i: int|
            0 <= i < find_sep(s) ==> !(#[trigger] s[i] == 58 && s[i + 1] == 32),
    decreases s.len(),
{
    if s.len() < 2 {
    } else if s[0] == 58 && s[1] == 32 {
    } else {
        lemma_find_sep(s.drop_first());
        assert(forall|i: int| 1 <= i < s.len() ==> s[i] == s.drop_first()[i - 1]);
    }
}

/// First occurrence of `": "` in the slice, as `find_sep` names it.
fn find_sep_in(s: &[u8]) -> (r: Option<usize>)
    ensures
        match r {
            Some(i) => i as int == find_sep(s@),
            None => find_sep(s@) == -1,
        },
{
    if s.len() < 2 {
        return None;
    }
    let mut i: usize = 0;
    while i < s.len() - 1
        invariant
            s@.len() >= 2,
            0 <= i <= s@.len() - 1,
            forall|j: int| 0 <= j < i ==> !(#[trigger] s@[j] == 58 && s@[j + 1] == 32),
        decreases s@.len() - i,
    {
        if s[i] == 58 && s[i + 1] == 32 {
            proof {
                lemma_find_sep(s@);
                let r = find_sep(s@);
                if r == -1 {
                    assert(!(s@[i as int] == 58 && s@[i + 1] == 32));
                } else if r < i as int {
                    assert(!(s@[r] == 58 && s@[r + 1] == 32));
                } else if r > i as int {
                    assert(!(s@[i as int] == 58 && s@[i + 1] == 32));
                }
            }
            return Some(i);
        }
        i += 1;
    }
    proof {
        lemma_find_sep(s@);
    }
    None
}

/// A header line without one trailing carriage return, if it has one.
pub open spec fn strip_cr(line: Seq<u8>) -> Seq<u8> {
    if line.len() > 0 && line.last() == 13 {
        line.drop_last()
    } else {
        line
    }
}

/// The headers one line yields: one pair split at the first `": "`, or none
/// when the line holds no `": "`.
pub open spec fn line_pairs(line: Seq<u8>) -> Seq<HeaderModel> {
    let p = find_sep(line);
    if p == -1 {
        Seq::empty()
    } else {
        seq![HeaderModel { name: line.take(p), value: line.skip(p + 2) }]
    }
}

/// The headers a block yields: its lines are split at newlines, each line but
/// a final unterminated one loses one trailing carriage return, and each
/// contributes `line_pairs` of itself, in order.
pub open spec fn spec_headers(block: Seq<u8>) -> Seq<HeaderModel>
    decreases block.len(),
{
    if block.len() == 0 {
        Seq::empty()
    } else {
        let nl = find_byte(block, 10);
        if !(0 <= nl < block.len()) {
            line_pairs(block)
        } else {
            line_pairs(strip_cr(block.take(nl))) + spec_headers(block.skip(nl + 1))
        }
    }
}

/// Splits one header line at the first `": "`.
fn parse_header_line(line: &[u8]) -> (r: Option<Header>)
    ensures
        match r {
            Some(h) => line_pairs(line@) == seq![h@],
            None => line_pairs(line@) == Seq::<HeaderModel>::empty(),
        },
{
    match find_sep_in(line) {
        None => None,
        Some(p) => {
            proof {
                lemma_find_sep(line@);
                assert(p as int + 2 <= line@.len());
            }
            let mut name: Vec<u8> = Vec::new();
            push_all(&mut name, &line[0..p]);
            let end = line.len();
            let mut value: Vec<u8> = Vec::new();
            push_all(&mut value, &line[p + 2..end]);
            proof {
                assert(name@ =~= line@.take(p as int));
                assert(value@ =~= line@.skip(p + 2));
            }
            Some(Header { name, value })
        },
    }
}

/// Parses the header block; the body is deliberately left empty, since the
/// grammar honours no header/body boundary.
pub fn parse_headers_and_body(block: &[u8]) -> (r: (Option<Vec<Header>>, Vec<u8>))
    ensures
        r.0 is Some,
        headers_view(r.0->Some_0@) == spec_headers(block@),
        r.1@ == Seq::<u8>::empty(),
{
    let mut hs: Vec<Header> = Vec::new();
    let mut pos: usize = 0;
    proof {
        assert(block@.skip(0) =~= block@);
        assert(headers_view(Seq::<Header>::empty()) =~= Seq::<HeaderModel>::empty());
        assert(Seq::<HeaderModel>::empty() + spec_headers(block@) =~= spec_headers(block@));
    }
    while pos < block.len()
        invariant
            0 <= pos <= block@.len(),
            spec_headers(block@) == headers_view(hs@) + spec_headers(block@.skip(pos as int)),
        decreases block@.len() - pos,
    {
        let suffix = &block[pos..block.len()];
        let ghost gsuffix = block@.skip(pos as int);
        proof {
            assert(suffix@ =~= gsuffix);
            lemma_find_byte(gsuffix, 10);
        }
        let line_opt: Option<Header>;
        let next_pos: usize;
        match find_byte_in(suffix, 10) {
            Some(nl) => {
                let rawline = &suffix[0..nl];
                let line = if rawline.len() > 0 && rawline[rawline.len() - 1] == 13 {
                    &rawline[0..rawline.len() - 1]
                } else {
                    rawline
                };
                proof {
                    assert(rawline@ =~= gsuffix.take(nl as int));
                    if rawline@.len() > 0 && rawline@.last() == 13 {
                        assert(line@ =~= strip_cr(gsuffix.take(nl as int)));
                    } else {
                        assert(line@ =~= strip_cr(gsuffix.take(nl as int)));
                    }
                }
                line_opt = parse_header_line(line);
                next_pos = pos + nl + 1;
                proof {
                    assert(gsuffix.skip(nl + 1) =~= block@.skip(next_pos as int));
                    assert(spec_headers(gsuffix) == line_pairs(strip_cr(gsuffix.take(nl as int)))
                        + spec_headers(block@.skip(next_pos as int)));
                }
            },
            None => {
                line_opt = parse_header_line(suffix);
                next_pos = block.len();
                proof {
                    assert(block@.skip(next_pos as int) =~= Seq::<u8>::empty());
                    assert(spec_headers(gsuffix) == line_pairs(gsuffix));
                    assert(spec_headers(gsuffix) =~= line_pairs(gsuffix) + spec_headers(
                        block@.skip(next_pos as int),
                    ));
                }
            },
        }
        let ghost old_hs = hs@;
        let ghost grest = block@.skip(next_pos as int);
        match line_opt {
            Some(h) => {
                let ghost gh = h@;
                hs.push(h);
                proof {
                    assert(headers_view(hs@) =~= headers_view(old_hs) + seq![gh]);
                    assert((headers_view(old_hs) + seq![gh]) + spec_headers(grest) =~= headers_view(
                        old_hs,
                    ) + (seq![gh] + spec_headers(grest)));
                }
            },
            None => {
                proof {
                    assert(headers_view(hs@) + (Seq::<HeaderModel>::empty() + spec_headers(grest))
                        =~= headers_view(hs@) + spec_headers(grest));
                }
            },
        }
        pos = next_pos;
    }
    proof {
        assert(block@.skip(pos as int) =~= Seq::<u8>::empty());
        assert(headers_view(hs@) + spec_headers(Seq::<u8>::empty()) =~= headers_view(hs@));
    }
    (Some(hs), Vec::new())
}

/// The value of the last header named `name`, if any: a later header line
/// with the same name shadows an earlier one.
pub open spec fn spec_lookup(hs: Seq<HeaderModel>, name: Seq<u8>) -> Option<Seq<u8>>
    decreases hs.len(),
{
    if hs.len() == 0 {
        None
    } else if hs.last().name == name {
        Some(hs.last().value)
    } else {
        spec_lookup(hs.drop_last(), name)
    }
}

/// Finds the last header named `name`.
pub fn lookup_header(hs: &Vec<Header>, name: &[u8]) -> (r: Option<Vec<u8>>)
    ensures
        match r {
            Some(v) => spec_lookup(headers_view(hs@), name@) == Some(v@),
            None => spec_lookup(headers_view(hs@), name@) is None,
        },
{
    let mut i: usize = hs.len();
    proof {
        assert(headers_view(hs@).take(hs@.len() as int) =~= headers_view(hs@));
    }
    while i > 0
        invariant
            0 <= i <= hs@.len(),
            spec_lookup(headers_view(hs@), name@) == spec_lookup(
                headers_view(hs@).take(i as int),
                name@,
            ),
        decreases i,
    {
        let h = &hs[i - 1];
        proof {
            assert(headers_view(hs@).take(i as int).last() == hs@[i - 1]@);
            assert(headers_view(hs@).take(i as int).drop_last() =~= headers_view(hs@).take(
                i - 1,
            ));
        }
        if bytes_eq(h.name.as_slice(), name) {
            let mut v: Vec<u8> = Vec::new();
            push_all(&mut v, h.value.as_slice());
            proof {
                assert(v@ =~= hs@[i - 1]@.value);
            }
            return Some(v);
        }
        i -= 1;
    }
    proof {
        assert(headers_view(hs@).take(0) =~= Seq::<HeaderModel>::empty());
    }
    None
}

/// ASCII whitespace, as `is_ws` names it.
pub fn is_ws_byte(b: u8) -> (r: bool)
    ensures
        r == is_ws(b),
{
    b == 32 || b == 9 || b == 10 || b == 11 || b == 12 || b == 13
}

/// Relies on `core::str::from_utf8`: it accepts exactly the byte sequences
/// that vstd's `valid_utf8` describes.
#[verifier::external_body]
fn utf8_valid(s: &[u8]) -> (r: bool)
    ensures
        r == vstd::utf8::valid_utf8(s@),
{
    core::str::from_utf8(s).is_ok()
}

/// What `parse` yields on a buffer: `Undefined` and an empty request unless
/// the buffer is valid UTF-8, holds a space, and the token before the first
/// space is a recognized method; then the remainder up to the first newline
/// gives the path, the block after it the headers, and the body is empty.
pub open spec fn spec_parse(buf: Seq<u8>) -> (Request, HttpModel) {
    if !vstd::utf8::valid_utf8(buf) {
        (Request::Undefined, spec_empty_http())
    } else {
        let sp = find_byte(buf, 32);
        if sp < 0 {
            (Request::Undefined, spec_empty_http())
        } else {
            let req = spec_parse_type(buf.take(sp));
            if req is Undefined {
                (Request::Undefined, spec_empty_http())
            } else {
                let rest = buf.skip(sp + 1);
                let nl = find_byte(rest, 10);
                let line = if nl < 0 { rest } else { rest.take(nl) };
                let block = if nl < 0 { Seq::<u8>::empty() } else { rest.skip(nl + 1) };
                (
                    req,
                    HttpModel {
                        path: spec_parse_path(line),
                        headers: Some(spec_headers(block)),
                        body: Seq::empty(),
                    },
                )
            }
        }
    }
}

/// Parses one raw buffer into a method and a request.
pub fn parse(buf: &[u8]) -> (r: (Request, Http))
    ensures
        r.0 == spec_parse(buf@).0,
        r.1@ == spec_parse(buf@).1,
{
    if !utf8_valid(buf) {
        return (Request::Undefined, Http::new());
    }
    let sp = match find_byte_in(buf, 32) {
        Some(i) => i,
        None => {
            return (Request::Undefined, Http::new());
        },
    };
    proof {
        lemma_find_byte(buf@, 32);
    }
    let tok = &buf[0..sp];
    proof {
        assert(tok@ =~= buf@.take(sp as int));
    }
    let req = parse_type(tok);
    match req {
        Request::Undefined => (Request::Undefined, Http::new()),
        _ => {
            let rest = &buf[sp + 1..buf.len()];
            let ghost grest = buf@.skip(sp + 1);
            proof {
                assert(rest@ =~= grest);
                lemma_find_byte(grest, 10);
            }
            let line: &[u8];
            let block: &[u8];
            match find_byte_in(rest, 10) {
                Some(nl) => {
                    line = &rest[0..nl];
                    block = &rest[nl + 1..rest.len()];
                    proof {
                        assert(line@ =~= grest.take(nl as int));
                        assert(block@ =~= grest.skip(nl + 1));
                    }
                },
                None => {
                    line = rest;
                    block = &rest[0..0];
                    proof {
                        assert(block@ =~= Seq::<u8>::empty());
                    }
                },
            }
            let path = parse_path(line);
            let (headers, body) = parse_headers_and_body(block);
            (req, Http { path, headers, body })
        },
    }
}

} // verus!
