# ClipFerry

ClipFerry lets two Windows computers in a local network share files through the clipboard: files
that are copied on one of them can be pasted on the other. Files are read only when they are
pasted, over connections on which both devices prove their identities.

`src/` is the library. It holds the rules of the application: protocols, state machines,
validation and everything that is shown in words. Each function states in its contract what it
returns or changes, and Verus proves it. Times are nanoseconds, addresses are plain numbers, and
results of the system are arguments, so that the contracts speak of all of them. Random bytes are
drawn in `random`: a function that draws its own says that its result holds what was drawn, and
beside it stands one that takes the bytes as arguments.

- `security`, `random`, `tls`, `device_store`, `pairing`: identities, trusted devices and how
  devices come to trust each other.
- `discovery`: how devices find each other.
- `clipboard::data_object`, `virtual_object`, `format_enum`, `stream`, `source`, `transfer`: the
  virtual files on the clipboard.
- `clipboard::local_file`: which files are offered, and how they are read unchanged.
- `clipboard::loopback`: a transfer within one device, for trials.
- `clipboard::secure_transfer`: offers, transfers and the protocol between two devices; the file
  `laws.rs` states what holds of all of it.
- `clipboard::product`, `transfer_window`, `tray`: the application in the background and what it
  shows.
- `clipboard::runtime`, `report`, `probe`: trials of the parts, and what they print.

What is left to outside crates stands behind functions marked `external_body`, whose comments say
what is taken on trust: digests (sha2), certificates (rcgen), TLS settings (rustls), randomness
(getrandom) and the wiping of secrets (zeroize).

`tests/` runs the library on examples. `app/` is the program around it: sockets, files, threads
and Windows.
