# rest_services

Three small network services whose logic is verified with [Verus]:

- a **URL shortener**: links under short codes, with custom aliases, expiry, hit
  counts and a host denylist;
- a **pastebin**: text snippets with expiry, burn-after-read and a size limit;
- a **TCP server** that answers a small HTTP/1.1 subset, with keep-alive,
  pipelining, one deadline per request and graceful shutdown.

[Verus]: https://github.com/verus-lang/verus

## Layout

| Where | What |
|---|---|
| `src/` | the verified library |
| `src/shortener`, `src/pastebin` | domain, use cases, in-memory store, recorders, API answers, configuration |
| `src/tcp_server` | HTTP heads and responses, the state machine of a connection, the accept loop, the connection registry |
| `src/token.rs`, `src/clock.rs`, `src/rate_limit.rs`, `src/cache.rs`, `src/count_batch.rs`, ... | what the services share |
| `app/` | sockets, databases, Redis and the web framework around the library |
| `tests/` | tests of the library |

The library decides and `app/` acts. A use case such as fetching a paste is split
into functions that take what the store, the cache and the clock have said, and say
what is to be done. `PasteService` and `LinkService` in `src/` run these functions
over stores and caches with contracts; the services of the same names in `app/` run
them over SQLite and Redis. A connection is a state machine that asks for reads and
hands out the bytes to write.

## What is proved

Every function of `src/` has a contract, and the laws that relate several of them
are public proof functions. Among them:

- a one-shot paste never enters the cache, and is served once with any cache; an
  expired paste is not served; with a cache that drops what it is told to, a deleted
  paste is gone from there too (`pastebin::application`);
- with such a cache, a redirect goes to the target that is stored under the code; a
  link that has expired is not resolved, and none is ever overwritten
  (`shortener::application`);
- a time to live, however long, never puts an expiry before the creation, and what is
  created, judged or cached is timed by the clock (`clock`, both `application`s);
- no view or hit is lost between batch and store (`count_batch`, `views`, `hits`);
- a client gets no more requests over any span of time than its burst and its rate
  allow, however long it was idle and whatever other clients do, and a new client gets
  its whole burst (`rate_limit`);
- how a request is answered depends on the bytes sent and not on how they are cut
  into reads, its deadline starts once, pipelined requests are each answered and
  counted once, and the memory of a connection is bounded (`tcp_server::connection`);
- a server never has more live connections than permits, and none once its permits
  are taken back (`tcp_server::server`).

## What is trusted

The wall clock and the monotonic clock, the random number generator of the `rand`
crate, the URL parser of the `url` crate, and two functions on strings of the
standard library. Each is declared where it is used, with what is claimed of it.
