# torsen

The request handling of the torsen agent API, with its contracts and proofs.

- `src/api.rs`: the messages agents and the server exchange, with their views.
- `src/server.rs`: what the server answers: the text of a heartbeat's commands
  and the reply to each kind of remote call.
- `src/heartbeat.rs`: the schedule of the commands that answer one heartbeat, as
  a state machine driven one event at a time, with its laws (well-formedness,
  termination, round order, the faithful schedule, the end after a failed
  delivery).
- `src/pem.rs`: certificates and private keys read out of PEM text.
- `src/tls.rs`: the server's TLS identity and the client's trusted roots, from
  the bytes of their PEM files.
- `src/client.rs`: what an agent answers to a call pushed by the server.
- `src/decimal.rs`: decimal text of integers.
- `app/`: the gRPC service and programs around the library (servers over TCP,
  a Unix socket and TLS; two clients).
