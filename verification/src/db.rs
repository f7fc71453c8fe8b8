//! Where the statistics come from: the address of one PostgreSQL server.
use vstd::prelude::*;
use vstd::string::StringExecFns;

verus! {

/// The server that the exporter reads: its address (`host:port`), the role to
/// log in as and the database to open.
#[derive(Clone, Debug, PartialEq, Eq)]
pub struct PostgresNode {
    pub addr: String,
    pub user: String,
    pub dbname: String,
}

/// The connection URL of a server: `postgresql://USER@ADDR/DBNAME`.
pub open spec fn connection_url_text(user: Seq<char>, addr: Seq<char>, dbname: Seq<char>) -> Seq<
    char,
> {
    "postgresql://"@ + user + seq!['@'] + addr + seq!['/'] + dbname
}

impl PostgresNode {
    /// The URL that a client library connects to for this server.
    pub fn connection_url(&self) -> (url: String)
        ensures
            url@ == connection_url_text(self.user@, self.addr@, self.dbname@),
    {
        proof {
            reveal_strlit("@");
            reveal_strlit("/");
            assert("@"@ =~= seq!['@']);
            assert("/"@ =~= seq!['/']);
        }
        String::from_str("postgresql://").concat(self.user.as_str()).concat("@").concat(
            self.addr.as_str(),
        ).concat("/").concat(self.dbname.as_str())
    }
}

} // verus!
