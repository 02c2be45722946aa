# rsiprtp

A SIP/RTP communications library whose logic is verified with Verus.

- `src/` — the verified library: SIP messages and digest authentication, client
  transaction state machines, INVITE dialogs and their manager, registration, SDP parsing
  and building (with a proof that a written description reads back), RTP/RTCP packets and
  sessions, the G.711 codecs, the audio mixer, STUN/ICE message handling, and transport
  framing.
- `app/` — the runtime around it: UDP and TLS sockets, the STUN client and ICE gathering,
  the Opus codec, floating-point audio measures, and the serde form of the configuration.
- `tests/` — tests of the library.
