# ingestqnc

The rules of the IngestQNC ingest tool, verified with Verus: how a source is
identified (QNC transport URIs, marker files, card serials, volume UUIDs and
root signatures), how its clips are discovered and keyed, what is kept of an
ffprobe run, where the modular SQLite databases live, and the state the
operator's view works with.

- `src/` is the verified library. Each module's contracts state its results
  over sequence models of the texts it handles; the laws of the library are
  public proof functions next to the functions they speak of.
- `tests/` runs the library on concrete values.
- `app/` is a command-line runner around the library: it reads disks, runs
  ffprobe and writes SQLite (`identify`, `scan`, `probe`, `list`).

Environment: `INGESTQNC_HOME`, `INGESTQNC_DB_URI_BASE`,
`INGESTQNC_LAN_MOUNT_ROOT`, `INGESTQNC_INTRANET_MOUNT_ROOT`,
`INGESTQNC_FFPROBE`.
