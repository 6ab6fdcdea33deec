# oxideav_riff

RIFF (Resource Interchange File Format) chunk walking and typed decoders
for the common WAV / BWF metadata chunks, with every function's contract
proved by Verus.

## Layout

- `src/` — the verified library:
  - `chunk`, `walk`, `tree` — chunk headers, the budget-checked walker
    over a group's children, and the owned recursive tree with its
    byte-exact encoder (`RIFF` and big-endian `RIFX`);
  - `ds64`, `fact`, `waveformat`, `subtype`, `channels`, `cue`, `plst`,
    `adtl`, `info`, `bext`, `chna`, `acid`, `cset`, `inst`, `smpl`,
    `sxml`, `wavl`, `padding`, `id3`, `ctoc` — typed chunk-body decoders
    and their encoders;
  - `wave`, `bundle` — typed views of a parsed `RIFF/WAVE` file and a
    `RIFF/BND ` bundle;
  - `le`, `records`, `text` — byte-level helpers and the lemmas the
    decoders share.
- `tests/` — unit and end-to-end tests.
- `app/` — reading files from `Read + Seek` sources, an error type with
  `Display`, and the floating-point readings of the `acid` and `bext`
  loudness fields.

The round-trip laws (decode after encode, encode after decode) are the
public `lemma_*` proof functions of each module.
