# quote_stream

A stock-quote streaming service: a server that accepts `STREAM
udp://<host>:<port> <ticker1,ticker2>` subscriptions over TCP and sends
updated quotes to each subscriber over UDP, and a client that subscribes and
prints what it receives.

- `src/` is the verified library: address validation (`common::address`),
  the ticker-file format (`common::tickers`), the volume model of a quote
  (`common::volume`), the server's command parser, session step and quote
  fan-out (`server`), the client's side of the protocol (`client`), text
  helpers (`text`), and the proof that a client's subscription is accepted by
  the server for what it names (`handshake`).
- `app/` is the program around it: command lines, sockets, threads, files,
  JSON and the floating-point quote record. Run it as
  `quote_stream server --port 12345 --interval 5 --file-path tickers.txt` or
  `quote_stream client --tcp-server 127.0.0.1:12345 --udp-server 127.0.0.1:10001 --file-path tickers.txt`.
