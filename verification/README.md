# idevice

The protocol logic of a library for Apple devices, in Verus: the message
formats, parsers, state machines and decisions of the lockdown, usbmuxd,
RemoteXPC/RSD, pairing, backup (MobileBackup2), restore and smaller service
protocols, each with a contract over a mathematical model. It does not talk
to devices itself: the sockets, USB transfers and HTTP exchanges that carry
these messages are not part of it.

- `src/` is the verified library. Calls into outside crates (crypto, base64,
  zip, UUIDs, time) stand behind small trusted wrappers whose contracts say
  what the crates' sources show; the logic around them is verified.
- `tests/` runs the library with the real outside crates linked.
- `app/` holds what Verus does not take: the journal's file I/O and serde
  parse, and the JSON parse of pairing replies.
