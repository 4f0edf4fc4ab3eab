# DeezChatz SDK

End-to-end encrypted messaging for the DeezChatz platform: the Signal protocol (X3DH and Double
Ratchet) on top of `libsignal-dezire`, stateless REST authentication with VXEdDSA signatures, and
real-time messaging over MQTT.

## Layout

- `src/` is the library, verified with [Verus](https://github.com/verus-lang/verus). It holds what
  the SDK decides and computes: payload frames, key and signature handling, sessions, the steps of
  sending, receiving and registering, requests to the REST API, and the decisions of the MQTT
  transport. Each function says in its contract what it returns; the public functions named `law_…`
  state what holds of several functions together.
- `tests/` runs the library, with the real cryptography underneath.
- `app/` is ordinary asynchronous Rust around the library: storage traits, HTTP, the MQTT event
  loop, JSON, and the `DeezChatzClient` that ties them together.

## What is proved

- A frame decodes to the message that it was made from, and no message has two frames.
- What a sender encrypts as the first message to a recipient's published keys, and as further
  messages until it has decrypted a reply, the recipient decrypts to the same bytes; so does the
  sender what the recipient encrypts as replies to those messages. The messages of either side may
  overtake each other, as long as each has its key stored or lies at most 1000 ahead of the
  ratchet's receiving counter, which counts the messages that were decrypted without a stored key,
  and no stored key has to be dropped, which the ratchet does from 2000 on. This holds for up to
  10000 messages of either side.
- Both ends use the same associated data; a first message names the keys that it was made with, and
  its recipient has saved the signed pre-key under the id that it names.
- An incoming message is saved to the inbox before it is decrypted. On a new connection the pending
  messages of the inbox are processed again, each once and in order, without being saved again, and
  the pending messages of the outbox that are not on their way are published, each once and in
  order.
- A message is saved to the outbox before it is published, counts as sent only when it was
  published, and is marked sent exactly when the broker acknowledges it; no message on its way is
  forgotten.
- The recipient reads the sender's user and device from the topic of a message. A message goes to
  the topic filter of the device that its session is with, and a reply to that of the device that
  wrote, as long as no id contains a slash.
- Encoded keys, signatures and pre-key bundles are read back from their texts.
- Credentials and broker passwords verify under the public key of their signer, and contacts can
  start sessions from what a device registers, wherever the signed text has any signature that
  verifies.

## What is trusted

Cryptographic primitives, encodings, the clock and random numbers come from other crates and from
the standard library. The functions that call them stand in `src/encoding.rs`, `src/signal.rs` and
`src/payload.rs`; the comment above each says what is relied on.
