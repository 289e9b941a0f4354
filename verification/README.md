# connectrpc_workers

Request addressing for ConnectRPC client transports on Cloudflare Workers,
verified with Verus.

- `src/uri.rs`: the components of a URI as plain strings (`UriParts`), whose
  invariant is that `http` accepts each of them; the path and query of a URI;
  the calls into `http` that check components and build an absolute URI.
- `src/transport.rs`: `FetchTransport` (built from a base URI that has a scheme
  and an authority), the rewriting of a request's URI onto that base
  (`rewrite_uri`, `FetchTransport::prepare_request`), and the laws proved of it.
- `src/error.rs`: `TransportError` and its message text.
- `app/lib.rs`: the `connectrpc::client::ClientTransport` implementations
  (`FetcherTransport`, `FetchTransport`) that fetch through the `worker` crate.
- `tests/`: tests of the library.
