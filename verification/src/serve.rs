//! The dispatcher and the two handlers, written as a small state machine
//! over the filesystem.
//!
//! The core never touches the filesystem itself.  `handle` maps a parsed
//! request to a first `Flow` state; each non-final state names the one
//! filesystem question to ask (a metadata probe, a file read, a directory
//! listing), and `step` maps the answer, fed back as an `FsEvent`, to the
//! next state.  The caller repeats until `Flow::Done` holds the handler
//! outcome.  Exactly one handler runs per request, chosen by the method
//! alone; an `Undefined` method is `NotFound` at once.

use vstd::prelude::*;

use crate::bytes::push_all;
use crate::config::Config;
use crate::request::{Http, HttpModel, Request, lookup_header, spec_lookup};

verus! {

/// The error taxonomy of a handler: a missing resource, and a reserved
/// kind that no current handler produces.
#[derive(Clone, Copy, Debug, PartialEq, Eq, Structural)]
pub enum HttpError {
    NotFound,
    Unknown,
}

/// What a metadata probe found an entry to be.
#[derive(Clone, Copy, Debug, PartialEq, Eq, Structural)]
pub enum MetaKind {
    Dir,
    File,
    Other,
}

/// One answer from the filesystem, handed back to `step`.
pub enum FsEvent {
    /// The probed entry exists and has this kind.
    Meta(MetaKind),
    /// The probe failed: nothing there, or not reachable.
    NoMeta,
    /// A file read succeeded with these bytes.
    Bytes(Vec<u8>),
    /// A file read failed.
    ReadFailed,
    /// A directory listing yielded these immediate entry names, in order;
    /// a failed listing yields no names.
    Names(Vec<Vec<u8>>),
}

/// The mathematical value of an `FsEvent`.
pub enum FsEventModel {
    Meta(MetaKind),
    NoMeta,
    Bytes(Seq<u8>),
    ReadFailed,
    Names(Seq<Seq<u8>>),
}

impl View for FsEvent {
    type V = FsEventModel;

    open spec fn view(&self) -> FsEventModel {
        match self {
            FsEvent::Meta(k) => FsEventModel::Meta(*k),
            FsEvent::NoMeta => FsEventModel::NoMeta,
            FsEvent::Bytes(b) => FsEventModel::Bytes(b@),
            FsEvent::ReadFailed => FsEventModel::ReadFailed,
            FsEvent::Names(ns) => FsEventModel::Names(ns@.map_values(|n: Vec<u8>| n@)),
        }
    }
}

/// One state of serving a request.  Every state but `Done` names the
/// filesystem question whose answer drives the next `step`.
pub enum Flow {
    /// Probe the metadata of `path`.
    StatPath { path: Vec<u8> },
    /// `dir` proved to be a directory; probe the metadata of `index`,
    /// its `index.html`.
    StatIndex { dir: Vec<u8>, index: Vec<u8> },
    /// Read the whole file at `path`.
    ReadFile { path: Vec<u8> },
    /// List the immediate entries of `dir`.
    ListDir { dir: Vec<u8> },
    /// The handler outcome is decided.
    Done { result: Result<Vec<u8>, HttpError> },
}

/// The mathematical value of a `Flow`.
pub enum FlowModel {
    StatPath(Seq<u8>),
    StatIndex(Seq<u8>, Seq<u8>),
    ReadFile(Seq<u8>),
    ListDir(Seq<u8>),
    Done(Result<Seq<u8>, HttpError>),
}

impl View for Flow {
    type V = FlowModel;

    open spec fn view(&self) -> FlowModel {
        match self {
            Flow::StatPath { path } => FlowModel::StatPath(path@),
            Flow::StatIndex { dir, index } => FlowModel::StatIndex(dir@, index@),
            Flow::ReadFile { path } => FlowModel::ReadFile(path@),
            Flow::ListDir { dir } => FlowModel::ListDir(dir@),
            Flow::Done { result } => FlowModel::Done(
                match result {
                    Ok(b) => Ok(b@),
                    Err(e) => Err(*e),
                },
            ),
        }
    }
}

/// The probe suffix `/index.html`, joined to a directory path.
pub open spec fn spec_index_suffix() -> Seq<u8> {
    seq![47u8, 105, 110, 100, 101, 120, 46, 104, 116, 109, 108]
}

/// Builds the bytes that `spec_index_suffix` names.
fn index_suffix() -> (r: Vec<u8>)
    ensures
        r@ == spec_index_suffix(),
{
    let mut r: Vec<u8> = Vec::new();
    r.push(47);
    r.push(105);
    r.push(110);
    r.push(100);
    r.push(101);
    r.push(120);
    r.push(46);
    r.push(104);
    r.push(116);
    r.push(109);
    r.push(108);
    proof {
        assert(r@ =~= spec_index_suffix());
    }
    r
}

/// The name of the header that carries the access token, `Auth`.
pub open spec fn spec_auth_name() -> Seq<u8> {
    seq![65u8, 117, 116, 104]
}

/// Builds the bytes that `spec_auth_name` names.
fn auth_name() -> (r: Vec<u8>)
    ensures
        r@ == spec_auth_name(),
{
    let mut r: Vec<u8> = Vec::new();
    r.push(65);
    r.push(117);
    r.push(116);
    r.push(104);
    proof {
        assert(r@ =~= spec_auth_name());
    }
    r
}

/// The one path the gated handler serves, `/flag`.
pub open spec fn spec_flag_route() -> Seq<u8> {
    seq![47u8, 102, 108, 97, 103]
}

/// Builds the bytes that `spec_flag_route` names.
fn flag_route() -> (r: Vec<u8>)
    ensures
        r@ == spec_flag_route(),
{
    let mut r: Vec<u8> = Vec::new();
    r.push(47);
    r.push(102);
    r.push(108);
    r.push(97);
    r.push(103);
    proof {
        assert(r@ =~= spec_flag_route());
    }
    r
}

/// Whether a directory entry name appears in a listing: every name is kept
/// except those that start with a dot.
pub open spec fn spec_keep(name: Seq<u8>) -> bool {
    name.len() == 0 || name[0] != 46
}

/// The line one entry contributes to a directory listing: the directory
/// path, a slash, the entry name and a newline — or nothing for a dotfile.
pub open spec fn spec_row(dir: Seq<u8>, name: Seq<u8>) -> Seq<u8> {
    if spec_keep(name) {
        dir + seq![47u8] + name + seq![10u8]
    } else {
        Seq::empty()
    }
}

/// A directory listing: the rows of the names, in the order given.
pub open spec fn spec_listing(dir: Seq<u8>, names: Seq<Seq<u8>>) -> Seq<u8>
    decreases names.len(),
{
    if names.len() == 0 {
        Seq::empty()
    } else {
        spec_row(dir, names[0]) + spec_listing(dir, names.drop_first())
    }
}

/// A listing is exactly the concatenation of one row per name: a kept name
/// contributes its own line, a dotfile contributes nothing.
pub proof fn lemma_listing_rows(dir: Seq<u8>, names: Seq<Seq<u8>>)
    ensures
        spec_listing(dir, names) == names.map_values(|n: Seq<u8>| spec_row(dir, n)).flatten(),
    decreases names.len(),
{
    let rows = names.map_values(|n: Seq<u8>| spec_row(dir, n));
    if names.len() == 0 {
        assert(rows =~= Seq::<Seq<u8>>::empty());
    } else {
        lemma_listing_rows(dir, names.drop_first());
        assert(names.drop_first().map_values(|n: Seq<u8>| spec_row(dir, n)) =~= rows.drop_first());
        assert(rows.flatten() == rows.first() + rows.drop_first().flatten());
    }
}

/// Renders a directory listing from the entry names, skipping dotfiles.
pub fn render_listing(dir: &Vec<u8>, names: &Vec<Vec<u8>>) -> (r: Vec<u8>)
    ensures
        r@ == spec_listing(dir@, names@.map_values(|n: Vec<u8>| n@)),
{
    let ghost gnames = names@.map_values(|n: Vec<u8>| n@);
    let mut r: Vec<u8> = Vec::new();
    let mut i: usize = 0;
    proof {
        assert(gnames.skip(0) =~= gnames);
        assert(Seq::<u8>::empty() + spec_listing(dir@, gnames) =~= spec_listing(dir@, gnames));
    }
    while i < names.len()
        invariant
            0 <= i <= names@.len(),
            gnames == names@.map_values(|n: Vec<u8>| n@),
            r@ + spec_listing(dir@, gnames.skip(i as int)) == spec_listing(dir@, gnames),
        decreases names@.len() - i,
    {
        let ghost old_r = r@;
        let ghost rest = gnames.skip(i as int);
        proof {
            assert(rest[0] == gnames[i as int]);
            assert(rest.drop_first() =~= gnames.skip(i + 1));
        }
        let name = &names[i];
        if name.len() == 0 || name[0] != 46 {
            push_all(&mut r, dir.as_slice());
            r.push(47);
            push_all(&mut r, name.as_slice());
            r.push(10);
            proof {
                assert(r@ =~= old_r + spec_row(dir@, gnames[i as int]));
            }
        } else {
            proof {
                assert(spec_row(dir@, gnames[i as int]) =~= Seq::<u8>::empty());
                assert(r@ =~= old_r + spec_row(dir@, gnames[i as int]));
            }
        }
        proof {
            assert((old_r + spec_row(dir@, gnames[i as int])) + spec_listing(
                dir@,
                gnames.skip(i + 1),
            ) =~= old_r + (spec_row(dir@, gnames[i as int]) + spec_listing(
                dir@,
                gnames.skip(i + 1),
            )));
        }
        i += 1;
    }
    proof {
        assert(gnames.skip(gnames.len() as int) =~= Seq::<Seq<u8>>::empty());
        assert(r@ + Seq::<u8>::empty() =~= r@);
    }
    r
}

/// Where a GET starts: probe the path resolved against the document root.
pub open spec fn spec_get_start(root: Seq<u8>, path: Seq<u8>) -> FlowModel {
    FlowModel::StatPath(root + path)
}

/// Where a POST starts: only a request for the flag route whose `Auth`
/// header equals the secret reads the protected file; everything else is
/// `NotFound` at once.
pub open spec fn spec_post_start(secret: Seq<u8>, protected: Seq<u8>, http: HttpModel) -> FlowModel {
    match http.headers {
        Some(hs) => match spec_lookup(hs, spec_auth_name()) {
            Some(pass) => if http.path == spec_flag_route() && pass == secret {
                FlowModel::ReadFile(protected)
            } else {
                FlowModel::Done(Err(HttpError::NotFound))
            },
            None => FlowModel::Done(Err(HttpError::NotFound)),
        },
        None => FlowModel::Done(Err(HttpError::NotFound)),
    }
}

/// Where serving starts, by method: GET probes the document root, POST
/// checks the access token, `Undefined` is `NotFound` without any handler.
pub open spec fn spec_dispatch(
    root: Seq<u8>,
    secret: Seq<u8>,
    protected: Seq<u8>,
    req: Request,
    http: HttpModel,
) -> FlowModel {
    match req {
        Request::Get => spec_get_start(root, http.path),
        Request::Post => spec_post_start(secret, protected, http),
        Request::Undefined => FlowModel::Done(Err(HttpError::NotFound)),
    }
}

/// One step of serving: the state and the filesystem's answer decide the
/// next state.
///
/// A probed path that is a file is read; a directory diverts to a probe of
/// its `index.html`, and that probe's outcome replaces the resolved entry
/// wholesale — a present `index.html` is read if a file and even listed if
/// itself a directory, while a failed probe lists the directory first probed.
/// Anything else, a mismatched answer included, is `NotFound`.  `Done` is
/// final.
pub open spec fn spec_step(f: FlowModel, e: FsEventModel) -> FlowModel {
    match f {
        FlowModel::StatPath(p) => match e {
            FsEventModel::Meta(MetaKind::Dir) => FlowModel::StatIndex(p, p + spec_index_suffix()),
            FsEventModel::Meta(MetaKind::File) => FlowModel::ReadFile(p),
            _ => FlowModel::Done(Err(HttpError::NotFound)),
        },
        FlowModel::StatIndex(dir, index) => match e {
            FsEventModel::Meta(MetaKind::Dir) => FlowModel::ListDir(index),
            FsEventModel::Meta(MetaKind::File) => FlowModel::ReadFile(index),
            FsEventModel::NoMeta => FlowModel::ListDir(dir),
            _ => FlowModel::Done(Err(HttpError::NotFound)),
        },
        FlowModel::ReadFile(_) => match e {
            FsEventModel::Bytes(b) => FlowModel::Done(Ok(b)),
            _ => FlowModel::Done(Err(HttpError::NotFound)),
        },
        FlowModel::ListDir(dir) => match e {
            FsEventModel::Names(ns) => FlowModel::Done(Ok(spec_listing(dir, ns))),
            _ => FlowModel::Done(Err(HttpError::NotFound)),
        },
        FlowModel::Done(r) => FlowModel::Done(r),
    }
}

/// Starts the static handler: GET resolves its path against the document
/// root.
pub fn handle_get(cfg: &Config, http: &Http) -> (f: Flow)
    ensures
        f@ == spec_get_start(cfg.doc_root@, http.path@),
{
    let mut path: Vec<u8> = Vec::new();
    push_all(&mut path, cfg.doc_root.as_slice());
    push_all(&mut path, http.path.as_slice());
    Flow::StatPath { path }
}

/// Starts the gated handler: POST serves the protected file only for the
/// flag route with the exact secret in `Auth`.
pub fn handle_post(cfg: &Config, http: &Http) -> (f: Flow)
    ensures
        f@ == spec_post_start(cfg.secret@, cfg.protected_path@, http@),
{
    match &http.headers {
        Some(hs) => {
            let auth = auth_name();
            match lookup_header(hs, auth.as_slice()) {
                Some(pass) => {
                    let route = flag_route();
                    if crate::bytes::bytes_eq(http.path.as_slice(), route.as_slice())
                        && crate::bytes::bytes_eq(pass.as_slice(), cfg.secret.as_slice()) {
                        let mut path: Vec<u8> = Vec::new();
                        push_all(&mut path, cfg.protected_path.as_slice());
                        Flow::ReadFile { path }
                    } else {
                        Flow::Done { result: Err(HttpError::NotFound) }
                    }
                },
                None => Flow::Done { result: Err(HttpError::NotFound) },
            }
        },
        None => Flow::Done { result: Err(HttpError::NotFound) },
    }
}

/// Dispatches a parsed request to the one handler its method selects.
pub fn handle(cfg: &Config, req: Request, http: &Http) -> (f: Flow)
    ensures
        f@ == spec_dispatch(cfg.doc_root@, cfg.secret@, cfg.protected_path@, req, http@),
{
    match req {
        Request::Get => handle_get(cfg, http),
        Request::Post => handle_post(cfg, http),
        Request::Undefined => Flow::Done { result: Err(HttpError::NotFound) },
    }
}

/// Advances serving by one filesystem answer.
pub fn step(f: Flow, e: FsEvent) -> (r: Flow)
    ensures
        r@ == spec_step(f@, e@),
{
    match f {
        Flow::StatPath { path } => match e {
            FsEvent::Meta(MetaKind::Dir) => {
                let mut index: Vec<u8> = Vec::new();
                push_all(&mut index, path.as_slice());
                let suffix = index_suffix();
                push_all(&mut index, suffix.as_slice());
                Flow::StatIndex { dir: path, index }
            },
            FsEvent::Meta(MetaKind::File) => Flow::ReadFile { path },
            _ => Flow::Done { result: Err(HttpError::NotFound) },
        },
        Flow::StatIndex { dir, index } => match e {
            FsEvent::Meta(MetaKind::Dir) => Flow::ListDir { dir: index },
            FsEvent::Meta(MetaKind::File) => Flow::ReadFile { path: index },
            FsEvent::NoMeta => Flow::ListDir { dir },
            _ => Flow::Done { result: Err(HttpError::NotFound) },
        },
        Flow::ReadFile { path: _ } => match e {
            FsEvent::Bytes(b) => Flow::Done { result: Ok(b) },
            _ => Flow::Done { result: Err(HttpError::NotFound) },
        },
        Flow::ListDir { dir } => match e {
            FsEvent::Names(ns) => {
                let body = render_listing(&dir, &ns);
                Flow::Done { result: Ok(body) }
            },
            _ => Flow::Done { result: Err(HttpError::NotFound) },
        },
        Flow::Done { result } => Flow::Done { result },
    }
}

} // verus!
