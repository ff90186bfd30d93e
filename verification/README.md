# wscall

A WebSocket RPC framework with a binary frame protocol, verified with Verus.

- `src/` is the library. It holds the packets and their compact JSON form, the frame
  codec with its ciphers, key agreement, rate limiting, parameter validation, and the
  decisions of the server and the client: functions from state and event to next state
  and action. Their contracts say what they return and change. The laws that relate
  several functions are public proof functions: those of client and server together
  are in `src/laws.rs`, those on the calls of one rate limiter in
  `src/rate_history.rs`.
- `app/` is the runtime around it: it owns the sockets, the tasks, the timers and the
  user's handlers, performs the actions and hands the outcomes back.
- `tests/` runs the library with the crates that it calls.

## Frames

```text
| frame_len:u32 | message_type:u8 | encryption:u8 | payload |
```

The payload, once decrypted, is

```text
| meta_len:u32 | JSON | att_count:u8 | attachment sections |
```

and each attachment section is

```text
| id_len:u8 | id | name_len:u8 | name | ct_len:u8 | content_type | data_len:u32 | data |
```

All numbers are big-endian. An encrypted payload is a 12-byte nonce followed by the
ciphertext with its tag.

The message types are 0 for requests and responses, 1 for events and their
acknowledgements, and 2 for the credential that a client submits before its connection
goes live and the server's answer to it.

## What is not proved

The contracts of the functions marked `external_body`, and of the
`assume_specification` items, are believed: each says in its doc comment which outside
function it stands for and what it claims of it.
