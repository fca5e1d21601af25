//! The guarantees the server gives, stated across the parser, the handlers
//! and the response writer, and proved from their contracts alone.

use vstd::prelude::*;

use crate::request::{HttpModel, Request, spec_lookup};
use crate::response::{
    dec_rep, dec_val, lemma_dec_roundtrip, spec_not_found_body, spec_response_body,
    spec_response_status, spec_status_404,
};
use crate::serve::{
    FlowModel, FsEventModel, HttpError, MetaKind, lemma_listing_rows, spec_auth_name,
    spec_dispatch, spec_flag_route, spec_get_start, spec_index_suffix, spec_keep, spec_listing,
    spec_post_start, spec_row, spec_step,
};

verus! {

/// A request whose method token is unrecognized reaches no handler: serving
/// is `NotFound` at once, and the response to that carries the 404 status
/// line and the body `Not found`.
pub proof fn lemma_undefined_is_not_found(
    root: Seq<u8>,
    secret: Seq<u8>,
    protected: Seq<u8>,
    http: HttpModel,
)
    ensures
        spec_dispatch(root, secret, protected, Request::Undefined, http) == FlowModel::Done(
            Err(HttpError::NotFound),
        ),
        spec_response_status(Err::<Seq<u8>, HttpError>(HttpError::NotFound)) == spec_status_404(),
        spec_response_body(Err::<Seq<u8>, HttpError>(HttpError::NotFound))
            == spec_not_found_body(),
{
}

/// A GET whose resolved path is a regular file is served that file: the
/// probe's answer `File` leads to a read of the resolved path, the read
/// bytes become the success body verbatim, and the `Content-Length` digits
/// denote exactly their count.
pub proof fn lemma_get_serves_file(root: Seq<u8>, path: Seq<u8>, b: Seq<u8>)
    ensures
        spec_step(spec_get_start(root, path), FsEventModel::Meta(MetaKind::File))
            == FlowModel::ReadFile(root + path),
        spec_step(FlowModel::ReadFile(root + path), FsEventModel::Bytes(b)) == FlowModel::Done(
            Ok(b),
        ),
        spec_response_body(Ok::<Seq<u8>, HttpError>(b)) == b,
        dec_val(dec_rep(b.len())) == b.len(),
{
    lemma_dec_roundtrip(b.len());
}

/// A GET on a directory that holds an `index.html` file serves it exactly
/// as serving that file directly would: the flow moves to a read of the
/// index path, and any read bytes decide the outcome the same way from
/// either starting point.
pub proof fn lemma_get_dir_with_index(root: Seq<u8>, path: Seq<u8>, b: Seq<u8>)
    ensures
        spec_step(spec_get_start(root, path), FsEventModel::Meta(MetaKind::Dir))
            == FlowModel::StatIndex(root + path, root + path + spec_index_suffix()),
        spec_step(
            FlowModel::StatIndex(root + path, root + path + spec_index_suffix()),
            FsEventModel::Meta(MetaKind::File),
        ) == FlowModel::ReadFile(root + path + spec_index_suffix()),
        forall|q: Seq<u8>|
            spec_step(FlowModel::ReadFile(q), FsEventModel::Bytes(b)) == FlowModel::Done(Ok(b)),
{
}

/// A GET on a directory without `index.html` answers its listing: one row
/// per entry whose name does not start with a dot — the directory path, a
/// slash, the name, a newline — and nothing at all for a dotfile.
pub proof fn lemma_get_dir_listing(root: Seq<u8>, path: Seq<u8>, names: Seq<Seq<u8>>)
    ensures
        spec_step(
            spec_step(spec_get_start(root, path), FsEventModel::Meta(MetaKind::Dir)),
            FsEventModel::NoMeta,
        ) == FlowModel::ListDir(root + path),
        spec_step(FlowModel::ListDir(root + path), FsEventModel::Names(names)) == FlowModel::Done(
            Ok(spec_listing(root + path, names)),
        ),
        spec_listing(root + path, names) == names.map_values(
            |n: Seq<u8>| spec_row(root + path, n),
        ).flatten(),
        forall|n: Seq<u8>| !spec_keep(n) ==> spec_row(root + path, n) == Seq::<u8>::empty(),
        forall|n: Seq<u8>|
            spec_keep(n) ==> spec_row(root + path, n) == (root + path) + seq![47u8] + n
                + seq![10u8],
{
    lemma_listing_rows(root + path, names);
}

/// Only the exact gate opens the protected file: a POST to the flag route
/// whose `Auth` header equals the secret reads it and answers its bytes;
/// a missing header map, a missing `Auth` header, any other path or any
/// other token is `NotFound` without a read.
pub proof fn lemma_post_gate(secret: Seq<u8>, protected: Seq<u8>, http: HttpModel, b: Seq<u8>)
    ensures
        (match http.headers {
            Some(hs) => spec_lookup(hs, spec_auth_name()) == Some(secret),
            None => false,
        }) && http.path == spec_flag_route() ==> spec_post_start(secret, protected, http)
            == FlowModel::ReadFile(protected) && spec_step(
            FlowModel::ReadFile(protected),
            FsEventModel::Bytes(b),
        ) == FlowModel::Done(Ok(b)),
        ((match http.headers {
            Some(hs) => spec_lookup(hs, spec_auth_name()) != Some(secret),
            None => true,
        }) || http.path != spec_flag_route()) ==> spec_post_start(secret, protected, http)
            == FlowModel::Done(Err(HttpError::NotFound)),
{
}

} // verus!
