# rchat

An encrypted two-party chat with file transfer, written in Verus.

The library (`src/`) holds the chat's logic with its contracts and proofs:

- `text`: trimming, prefixes, splitting, decimal numbers and UTF-8 conversions.
- `hexcodec`: hex text of keys (the `hex` crate), with the decode/encode round trip.
- `crypto`: AES-256-GCM session encryption (`aes-gcm`), secp256k1 keys (`k256`),
  ECIES key exchange (`ecies`), random keys and nonces (`rand`), and the reading
  of key text.
- `protocol`: encrypted text messages, the file announcement header, file
  chunks and the peer's answer to a file offer.
- `auth`: the password handshake as two state machines.
- `shell`: the chat shell's state machine (keys, received messages, file
  transfer steps).
- `view`: what the screen shows (line colours, titles, the yes/no choice).

The program (`app/`) parses the command line, runs the sockets, the key files,
the zip archives and the terminal, and asks the library what to do at each step.
