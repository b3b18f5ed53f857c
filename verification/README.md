# keystore2

The security level of a key store, verified with Verus.

A security level stands between the callers of the key store and one KeyMint device. It decides
who may have which key, completes the parameters of new keys, upgrades key blobs where the device
asks for it, stores what the device makes, and tells the caller what came of it.

- `src/` is the library. Every call is a state machine: `pending` says what it waits for, `resume`
  goes on from a reply. Their contracts say exactly what is asked at each stage and which stage
  follows from which reply. The modules `laws`, `masking`, `endings` and `success`, and the laws at
  the end of the other modules, say what follows for whole calls. Among them: no key is made before
  its name may be bound; a key whose use is refused reaches the device in no run in which the
  database heeds the refusal; at most one blob is written in a run; a new key is made from the
  caller's parameters, completed by what the services answered; what is stored and described is what
  was made; a call in which an upgraded blob cannot be kept does not succeed, as long as whoever
  runs the operation heeds that; and a call succeeds where every permission is granted and every
  service answers, whether or not a blob is upgraded, room is made, or the IMEIs are exchanged on
  the way.
- `app/` is ordinary Rust around the library: the services that a security level needs, as traits,
  the loop that performs the requests, and the calls of the interface with their records.
- `tests/` runs the library on concrete values.
