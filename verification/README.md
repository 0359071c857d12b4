# vbf_tool

Builds VBF flash container files from a JSON build script and a binary image.

- `src/script.rs` reads the thirteen entries of the `VBF1` section of the build
  script (`ScriptsT::from_json`).
- `src/vbf.rs` sets up a file for an image (`VbfFt::new`) and writes it
  (`VbfFt::dump`): the header text, the image block with its CRC-16 and, when
  asked for, the verification block table whose SHA-256 is the root hash.
- `src/encode.rs` holds the byte encodings (big-endian integers, hexadecimal
  and decimal text, decimal reading of a `u32`).
- `src/digest.rs` and `src/json_source.rs` hold the calls into `sha2`, `crc`
  and `json`.
- `src/laws.rs` proves properties that span several functions.
- `app/main.rs` is the command-line program: it reads the files and writes the
  result.
