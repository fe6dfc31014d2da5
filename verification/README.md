# discord_voice

A small Discord client for voice calls, with its logic verified by Verus.

- `src/` is the library: the conversation with the gateway (`gateway`) and with
  the voice server (`voice`), the messages that are sent (`payload`), the audio
  packets (`rtp`), the queues between the network and the sound card
  (`audio_io`) and the window (`gui`). `json`, `bytes`, `secretbox`, `text` and
  `ring` hold the calls into other crates, with what is taken for granted of
  them.
- `app/` is the program around it: sockets, sound devices, the Opus codec and
  the widgets.
- `tests/` runs the library on concrete values.

Every function of the library states in its contract what it returns and
changes. The proof functions named `lemma_..` state what holds across calls:
that audio arrives as it was sent, that no nonce comes back for 67108864
packets, that a call is announced once and in any order, that six packets of
silence follow when speech ends.
