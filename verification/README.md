# omf

Open Mining Format version 2: a zip archive holding a gzipped JSON index and arrays stored as
Parquet files or PNG/JPEG images.

The crate is split in two.

- `src/` is the `omf` library, verified with Verus. It holds the format's rules with their
  contracts: array types and the constraints that validation attaches to them, the checks on
  array data while writing and reading (indices, sub-blocks, boundaries, sizes), validation
  problem collection with its limit, the constraint each attribute array gets and where
  attributes can attach to each kind of geometry, archive member naming and the version comment, opening an
  archive from its member list, the Parquet schemas each array type accepts and the column
  checks, the bookkeeping of Parquet reading and writing, sub-files and reading limits, and the
  OMF v1 header, byte decoding, and legend-to-category rules.
- `app/` is ordinary Rust around it: the JSON data model with serde and schemars, zip, Parquet,
  image and gzip I/O, and OMF v1 conversion. It calls the library for every rule and check;
  floating-point arithmetic (unit and orthogonal vector checks) stays there.
- `tests/` exercises the library.
