//! The response writer: maps a handler outcome to the three chunks that go
//! back on the connection, in order — a status line, a `Content-Length`
//! header ending in a blank line, and the raw body bytes.
//!
//! A success keeps its body verbatim under `HTTP/1.1 200`; `NotFound`
//! becomes `HTTP/1.1 404 Not Found` with the body `Not found`; the reserved
//! `Unknown` kind becomes `HTTP/1.1 520 Unknown Error` with the body
//! `Unknown`.  The `Content-Length` value is the exact decimal byte length
//! of the body sent.

use vstd::prelude::*;

use crate::bytes::push_all;
use crate::serve::HttpError;

verus! {

/// The decimal digits of `n`, most significant first, without leading
/// zeros (a single `0` for zero).
pub open spec fn dec_rep(n: nat) -> Seq<u8>
    decreases n,
{
    if n < 10 {
        seq![(48 + n) as u8]
    } else {
        dec_rep(n / 10).push((48 + n % 10) as u8)
    }
}

/// The number a run of decimal digits denotes.
pub open spec fn dec_val(s: Seq<u8>) -> int
    decreases s.len(),
{
    if s.len() == 0 {
        0
    } else {
        dec_val(s.drop_last()) * 10 + s.last() - 48
    }
}

/// Round trip: the decimal digits of `n` denote `n` again, and are in fact
/// digits.
pub proof fn lemma_dec_roundtrip(n: nat)
    ensures
        dec_val(dec_rep(n)) == n,
        dec_rep(n).len() >= 1,
        forall|i: int| 0 <= i < dec_rep(n).len() ==> 48 <= #[trigger] dec_rep(n)[i] <= 57,
    decreases n,
{
    if n < 10 {
        assert(dec_rep(n) == seq![(48 + n) as u8]);
        assert(dec_rep(n).drop_last() =~= Seq::<u8>::empty());
        assert(dec_val(Seq::<u8>::empty()) == 0);
        assert(dec_val(dec_rep(n)) == n);
    } else {
        lemma_dec_roundtrip(n / 10);
        let d = (48 + n % 10) as u8;
        assert(dec_rep(n) == dec_rep(n / 10).push(d));
        assert(dec_rep(n).last() == d);
        assert(dec_rep(n).drop_last() =~= dec_rep(n / 10));
        assert(dec_val(dec_rep(n)) == dec_val(dec_rep(n / 10)) * 10 + d - 48);
        assert(d - 48 == n % 10);
        vstd::arithmetic::div_mod::lemma_fundamental_div_mod(n as int, 10);
        assert(dec_val(dec_rep(n)) == (n / 10) * 10 + n % 10);
        assert((n / 10) * 10 + n % 10 == n);
        assert(forall|i: int|
            0 <= i < dec_rep(n / 10).len() ==> dec_rep(n)[i] == #[trigger] dec_rep(n / 10)[i]);
    }
}

/// Writes `n` in decimal.
pub fn u64_to_dec(n: u64) -> (r: Vec<u8>)
    ensures
        r@ == dec_rep(n as nat),
    decreases n,
{
    if n < 10 {
        let mut r: Vec<u8> = Vec::new();
        r.push(48 + n as u8);
        proof {
            assert(r@ =~= dec_rep(n as nat));
        }
        r
    } else {
        let mut r = u64_to_dec(n / 10);
        r.push(48 + (n % 10) as u8);
        r
    }
}

/// The status line `HTTP/1.1 200` with its newline.
pub open spec fn spec_status_200() -> Seq<u8> {
    seq![72u8, 84, 84, 80, 47, 49, 46, 49, 32, 50, 48, 48, 10]
}

/// Builds the bytes that `spec_status_200` names.
fn status_200() -> (r: Vec<u8>)
    ensures
        r@ == spec_status_200(),
{
    let mut r: Vec<u8> = Vec::new();
    r.push(72);
    r.push(84);
    r.push(84);
    r.push(80);
    r.push(47);
    r.push(49);
    r.push(46);
    r.push(49);
    r.push(32);
    r.push(50);
    r.push(48);
    r.push(48);
    r.push(10);
    proof {
        assert(r@ =~= spec_status_200());
    }
    r
}

/// The status line `HTTP/1.1 404 Not Found` with its blank line.
pub open spec fn spec_status_404() -> Seq<u8> {
    seq![72u8, 84, 84, 80, 47, 49, 46, 49, 32, 52, 48, 52, 32, 78, 111, 116, 32, 70, 111, 117, 110, 100, 13, 10, 13, 10]
}

/// Builds the bytes that `spec_status_404` names.
fn status_404() -> (r: Vec<u8>)
    ensures
        r@ == spec_status_404(),
{
    let mut r: Vec<u8> = Vec::new();
    r.push(72);
    r.push(84);
    r.push(84);
    r.push(80);
    r.push(47);
    r.push(49);
    r.push(46);
    r.push(49);
    r.push(32);
    r.push(52);
    r.push(48);
    r.push(52);
    r.push(32);
    r.push(78);
    r.push(111);
    r.push(116);
    r.push(32);
    r.push(70);
    r.push(111);
    r.push(117);
    r.push(110);
    r.push(100);
    r.push(13);
    r.push(10);
    r.push(13);
    r.push(10);
    proof {
        assert(r@ =~= spec_status_404());
    }
    r
}

/// The status line `HTTP/1.1 520 Unknown Error` with its blank line.
pub open spec fn spec_status_520() -> Seq<u8> {
    seq![72u8, 84, 84, 80, 47, 49, 46, 49, 32, 53, 50, 48, 32, 85, 110, 107, 110, 111, 119, 110, 32, 69, 114, 114, 111, 114, 13, 10, 13, 10]
}

/// Builds the bytes that `spec_status_520` names.
fn status_520() -> (r: Vec<u8>)
    ensures
        r@ == spec_status_520(),
{
    let mut r: Vec<u8> = Vec::new();
    r.push(72);
    r.push(84);
    r.push(84);
    r.push(80);
    r.push(47);
    r.push(49);
    r.push(46);
    r.push(49);
    r.push(32);
    r.push(53);
    r.push(50);
    r.push(48);
    r.push(32);
    r.push(85);
    r.push(110);
    r.push(107);
    r.push(110);
    r.push(111);
    r.push(119);
    r.push(110);
    r.push(32);
    r.push(69);
    r.push(114);
    r.push(114);
    r.push(111);
    r.push(114);
    r.push(13);
    r.push(10);
    r.push(13);
    r.push(10);
    proof {
        assert(r@ =~= spec_status_520());
    }
    r
}

/// The text `Content-Length: `.
pub open spec fn spec_cl_prefix() -> Seq<u8> {
    seq![67u8, 111, 110, 116, 101, 110, 116, 45, 76, 101, 110, 103, 116, 104, 58, 32]
}

/// Builds the bytes that `spec_cl_prefix` names.
fn cl_prefix() -> (r: Vec<u8>)
    ensures
        r@ == spec_cl_prefix(),
{
    let mut r: Vec<u8> = Vec::new();
    r.push(67);
    r.push(111);
    r.push(110);
    r.push(116);
    r.push(101);
    r.push(110);
    r.push(116);
    r.push(45);
    r.push(76);
    r.push(101);
    r.push(110);
    r.push(103);
    r.push(116);
    r.push(104);
    r.push(58);
    r.push(32);
    proof {
        assert(r@ =~= spec_cl_prefix());
    }
    r
}

/// The blank line that ends the headers.
pub open spec fn spec_crlf2() -> Seq<u8> {
    seq![13u8, 10, 13, 10]
}

/// Builds the bytes that `spec_crlf2` names.
fn crlf2() -> (r: Vec<u8>)
    ensures
        r@ == spec_crlf2(),
{
    let mut r: Vec<u8> = Vec::new();
    r.push(13);
    r.push(10);
    r.push(13);
    r.push(10);
    proof {
        assert(r@ =~= spec_crlf2());
    }
    r
}

/// The body sent with a 404 response, `Not found`.
pub open spec fn spec_not_found_body() -> Seq<u8> {
    seq![78u8, 111, 116, 32, 102, 111, 117, 110, 100]
}

/// Builds the bytes that `spec_not_found_body` names.
fn not_found_body() -> (r: Vec<u8>)
    ensures
        r@ == spec_not_found_body(),
{
    let mut r: Vec<u8> = Vec::new();
    r.push(78);
    r.push(111);
    r.push(116);
    r.push(32);
    r.push(102);
    r.push(111);
    r.push(117);
    r.push(110);
    r.push(100);
    proof {
        assert(r@ =~= spec_not_found_body());
    }
    r
}

/// The body sent with a 520 response, `Unknown`.
pub open spec fn spec_unknown_body() -> Seq<u8> {
    seq![85u8, 110, 107, 110, 111, 119, 110]
}

/// Builds the bytes that `spec_unknown_body` names.
fn unknown_body() -> (r: Vec<u8>)
    ensures
        r@ == spec_unknown_body(),
{
    let mut r: Vec<u8> = Vec::new();
    r.push(85);
    r.push(110);
    r.push(107);
    r.push(110);
    r.push(111);
    r.push(119);
    r.push(110);
    proof {
        assert(r@ =~= spec_unknown_body());
    }
    r
}

/// The three chunks of one response, written to the connection in order.
pub struct Response {
    pub status: Vec<u8>,
    pub header: Vec<u8>,
    pub body: Vec<u8>,
}

/// The mathematical value of a handler outcome.
pub open spec fn outcome_view(o: Result<Vec<u8>, HttpError>) -> Result<Seq<u8>, HttpError> {
    match o {
        Ok(b) => Ok(b@),
        Err(e) => Err(e),
    }
}

/// The status line an outcome gets.
pub open spec fn spec_response_status(o: Result<Seq<u8>, HttpError>) -> Seq<u8> {
    match o {
        Ok(_) => spec_status_200(),
        Err(HttpError::NotFound) => spec_status_404(),
        Err(HttpError::Unknown) => spec_status_520(),
    }
}

/// The body an outcome gets: a success body verbatim, a fixed text per
/// error kind.
pub open spec fn spec_response_body(o: Result<Seq<u8>, HttpError>) -> Seq<u8> {
    match o {
        Ok(b) => b,
        Err(HttpError::NotFound) => spec_not_found_body(),
        Err(HttpError::Unknown) => spec_unknown_body(),
    }
}

/// The `Content-Length` header for a body of `n` bytes, blank line
/// included.
pub open spec fn spec_content_length_header(n: nat) -> Seq<u8> {
    spec_cl_prefix() + dec_rep(n) + spec_crlf2()
}

/// Framing round trip: the `Content-Length` header of a body of `n` bytes
/// carries digits that denote exactly `n`.
pub proof fn lemma_framing_roundtrip(n: nat)
    ensures
        spec_content_length_header(n) == spec_cl_prefix() + dec_rep(n) + spec_crlf2(),
        dec_val(dec_rep(n)) == n,
{
    lemma_dec_roundtrip(n);
}

/// Renders a handler outcome as the response to send.
pub fn render_response(outcome: Result<Vec<u8>, HttpError>) -> (r: Response)
    ensures
        r.status@ == spec_response_status(outcome_view(outcome)),
        r.body@ == spec_response_body(outcome_view(outcome)),
        r.header@ == spec_content_length_header(r.body@.len()),
{
    let (status, body) = match outcome {
        Ok(b) => (status_200(), b),
        Err(HttpError::NotFound) => (status_404(), not_found_body()),
        Err(HttpError::Unknown) => (status_520(), unknown_body()),
    };
    let mut header = cl_prefix();
    let digits = u64_to_dec(body.len() as u64);
    push_all(&mut header, digits.as_slice());
    let blank = crlf2();
    push_all(&mut header, blank.as_slice());
    Response { status, header, body }
}

} // verus!
