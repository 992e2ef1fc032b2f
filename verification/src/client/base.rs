//! The traits that a generated client and its servers implement.

use vstd::prelude::*;

verus! {

/// A server that a client can talk to.
pub trait BaseServer {
    /// The URL under which the server is reached.
    spec fn url_text(&self) -> Seq<char>;

    fn url(&self) -> (url: &str)
        ensures
            url@ == self.url_text(),
    ;
}

/// A client for the servers of kind `TServer`.
pub trait BaseClient<TServer: BaseServer + Default>: Sized {
    /// The URL in front of every request of the client.
    spec fn base_url_text(&self) -> Seq<char>;

    /// A client that talks to the server named in `options`.
    fn new(options: ClientOptions<TServer>) -> (client: Self)
        ensures
            client.base_url_text() == options.server.url_text(),
    ;
}

/// How a client is set up.
pub struct ClientOptions<TServer: BaseServer + Default> {
    pub server: TServer,
}

impl<TServer: BaseServer + Default> Default for ClientOptions<TServer> {
    /// The options that name the default server.
    fn default() -> (options: Self)
        ensures
            call_ensures(TServer::default, (), options.server),
    {
        Self { server: TServer::default() }
    }
}

} // verus!
