# tinyquant

Binary formats of TinyQuant compressed vectors, verified with Verus.

- `src/` — the verified library:
  - `bits`, `compressed_vector` — LSB-first bit packing of quantization
    indices and the Level-1 record format (70-byte header, packed indices,
    optional residual), with round-trip laws in `compressed_vector/laws.rs`.
  - `zero_copy` — borrowed views and a cursor over Level-1 records, with
    laws in `zero_copy/laws.rs`.
  - `codec_file`, `mmap` — the Level-2 TQCV corpus file: header encoding
    and decoding, record framing, finalization, the streaming reader's
    checks and the record iterator; laws in `codec_file/laws.rs`,
    `codec_file/stream_laws.rs` and `mmap/laws.rs`.
  - `codec`, `errors`, `policy`, `abi`, `error_class` — the compressed
    vector value, error types, compression policies, C ABI codes and the
    exception classes of the language bindings.
  - `pgvector` — table-name validation and the pgvector adapter without a
    database connection; `text` builds its messages.
  - `node_args` — argument conversions of the Node.js binding.
- `app/` — file, memory-map and floating-point plumbing around the library.
- `tests/` — tests of the library on concrete values.
