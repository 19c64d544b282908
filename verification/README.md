# moonlight_stream

The protocol core of a Moonlight game-streaming client, written in Verus. The
library does no I/O and reads no clock: each stream is a state machine that is
handed the time, datagrams and answers, and that says what is to be done next.

| Module | What it does |
| --- | --- |
| `audio` | puts audio packets in order, recovers lost ones from parity, decrypts them |
| `control` | collects input, keeps the control connection alive, reports its end |
| `video` | gives out frames in order and asks for a new start when one is lost |
| `runtime` | decides what is read, sent and waited for, and how a session is opened |
| `ping`, `time`, `net`, `version`, `bytes`, `search` | what these have in common |

Each stream has a mathematical model (`AudioView`, `ControlView`, `VideoView`,
`DriveView`) and every operation is stated as a function on it. What holds over
several operations stands in the `laws` module of each part:

- Audio that is recovered is the audio that was sent, as long as no first parity
  packet of a block is delivered twice. Any four of the six packets of a block,
  wherever it stands in the stream, give its four frames once its turn has come,
  if its payloads are not empty and its timestamps do not wrap around.
- A disconnect is reported before updates fail for want of a connection.
- The video stream gives out frames that can be decoded one after the other.
- An update of the control stream that did all it had to, and an update of the
  video stream that gave out no frame, leave no expired deadline behind. A
  control ping that is refused for want of a connection stays due.

`audio::galois` shows why any four of the six packets of an audio block are
enough: no codeword of the code but zero is zero in four places.

`app/` runs the streams on tokio. What it cannot do without is left to traits:
the negotiation of a session, the control transport and the reassembly of video
frames.

## Outside crates

- `fec-rs` reconstructs audio blocks.
- `sans-io-time` adds to and subtracts instants.
- `smallvec` holds the packets of a batch.

What the proofs take for granted about them is stated at the functions that call
them, in `audio/fec.rs`, `time.rs` and `control/input_batcher.rs`.
