//! The fixed, process-wide configuration: the document root that GET paths
//! resolve against, the access token that the gated POST handler compares
//! `Auth` headers to, and the path of the protected file it serves.  The
//! server hardwires these values; `init` builds them once at startup and the
//! rest of the core receives them as an explicit argument.

use vstd::prelude::*;

verus! {

/// The configuration a server instance runs with.  All fields are fixed at
/// startup and never written afterwards.
pub struct Config {
    /// Directory that GET paths are appended to.
    pub doc_root: Vec<u8>,
    /// Token that a POST request's `Auth` header must equal.
    pub secret: Vec<u8>,
    /// File whose contents a correctly authenticated POST receives.
    pub protected_path: Vec<u8>,
}

/// The document root, `www`.
pub open spec fn spec_doc_root() -> Seq<u8> {
    seq![119u8, 119, 119]
}

/// The fixed access token, `OylFIrcuIk8KN1sJCEADaDFd7fi4TmKz`.
pub open spec fn spec_secret() -> Seq<u8> {
    seq![79u8, 121, 108, 70, 73, 114, 99, 117, 73, 107, 56, 75, 78, 49, 115, 74, 67, 69, 65, 68,
        97, 68, 70, 100, 55, 102, 105, 52, 84, 109, 75, 122]
}

/// The protected file, `the flag`, resolved against the working directory.
pub open spec fn spec_protected_path() -> Seq<u8> {
    seq![116u8, 104, 101, 32, 102, 108, 97, 103]
}

impl Config {
    /// Whether this configuration holds exactly the server's fixed values.
    pub open spec fn is_default(&self) -> bool {
        &&& self.doc_root@ == spec_doc_root()
        &&& self.secret@ == spec_secret()
        &&& self.protected_path@ == spec_protected_path()
    }
}

/// Builds the fixed configuration the server starts with.
pub fn init() -> (cfg: Config)
    ensures
        cfg.is_default(),
{
    let mut doc_root: Vec<u8> = Vec::new();
    doc_root.push(119);
    doc_root.push(119);
    doc_root.push(119);
    proof {
        assert(doc_root@ =~= spec_doc_root());
    }

    let mut secret: Vec<u8> = Vec::new();
    secret.push(79);
    secret.push(121);
    secret.push(108);
    secret.push(70);
    secret.push(73);
    secret.push(114);
    secret.push(99);
    secret.push(117);
    secret.push(73);
    secret.push(107);
    secret.push(56);
    secret.push(75);
    secret.push(78);
    secret.push(49);
    secret.push(115);
    secret.push(74);
    secret.push(67);
    secret.push(69);
    secret.push(65);
    secret.push(68);
    secret.push(97);
    secret.push(68);
    secret.push(70);
    secret.push(100);
    secret.push(55);
    secret.push(102);
    secret.push(105);
    secret.push(52);
    secret.push(84);
    secret.push(109);
    secret.push(75);
    secret.push(122);
    proof {
        assert(secret@ =~= spec_secret());
    }

    let mut protected_path: Vec<u8> = Vec::new();
    protected_path.push(116);
    protected_path.push(104);
    protected_path.push(101);
    protected_path.push(32);
    protected_path.push(102);
    protected_path.push(108);
    protected_path.push(97);
    protected_path.push(103);
    proof {
        assert(protected_path@ =~= spec_protected_path());
    }

    Config { doc_root, secret, protected_path }
}

} // verus!
