//! A metrics exporter core: statistics rows read from a PostgreSQL server are
//! turned into gauge families, encoded in the text exposition format and
//! relayed in bounded chunks to a response body, one chunk in flight at a time.
//!
//! The crate holds the rules and their proofs. Sockets, the HTTP server, the
//! database session and the logging backend live with the caller, which hands
//! plain values in and acts on the plain values that come back.
use vstd::prelude::*;
use vstd::string::StringExecFns;

pub mod channel;
pub mod chunks;
pub mod db;
pub mod encoder;
pub mod handler;
pub mod json;
pub mod metrics;
pub mod routes;
pub mod writer;

verus! {

/// The text of `version` for a package version and a source revision:
/// the version, then the revision in round brackets.
pub open spec fn version_text(pkg_version: Seq<char>, git_version: Seq<char>) -> Seq<char> {
    pkg_version + seq!['('] + git_version + seq![')']
}

/// The version line that the exporter prints at start-up.
pub fn version(pkg_version: &str, git_version: &str) -> (line: String)
    ensures
        line@ == version_text(pkg_version@, git_version@),
{
    proof {
        reveal_strlit("(");
        reveal_strlit(")");
        assert("("@ =~= seq!['(']);
        assert(")"@ =~= seq![')']);
    }
    String::from_str(pkg_version).concat("(").concat(git_version).concat(")")
}

} // verus!
