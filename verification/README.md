# rusty_spire

Readers for the data of Slay the Spire 2, with their behaviour stated in
contracts and proved with Verus.

- `src/pck.rs`: Godot resource packs (`.pck`): header, directory, file data;
  packs at the start of a file, at an offset, or appended to an executable.
- `src/texture.rs`: Godot compressed textures (`.ctex`): header, the DDS
  header built for block-compressed images, PNG/WebP mipmap chunks; decoding
  is done by the `dds` and `image` crates.
- `src/save/`: the save-file data model and the migration of versioned save
  data to the current schema.
- `src/extract.rs`: what the extractor decides per file, its statistics and
  a directory tree of a pack.
- `src/bytes.rs`, `src/text.rs`: integers from bytes, decimal text.
- `app/`: the extractor program (file and process I/O) and the JSON form of
  the save data.

All parsing works on bytes in memory; `tests/` holds the tests.
