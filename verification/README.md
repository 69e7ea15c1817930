# usenet-dl

The logic of a Usenet download backend's post-processing, written in Verus
and proved against its contracts:

- `src/parity`: PAR2 File Description packets (parsing, with a round-trip
  law), the par2 tool's verify and repair output, and the parity handlers
  that name the commands to run and read their results.
- `src/extraction`: archive types, password lists (each password once, in
  priority order), password attempts, nested extraction plans, and how the
  RAR, 7z and ZIP readers' errors and entries are handled.
- `src/post_processing`: the pipeline of stages for each mode, the decisions
  of the verify, repair, extract, move and cleanup stages, file collision
  handling (rename to "name (n).ext", overwrite or skip), and the order of
  PAR2 files.
- `src/folder_watcher`: which files a watch folder imports and what happens
  to them afterwards.
- `src/downloader`: the job name of an NZB file.
- `src/error`: the error types, their HTTP status and error codes, their
  messages and the API error response built from them.
- `src/text`, `src/paths`: character-level text handling and the parts of
  `std::path` the library relies on.

`app/` holds the runtime around the library: reading directories and files,
running the par2 tool, the archive readers, async tasks, the filesystem
watcher, signal handling, and the serialized forms of the error types.
`tests/` exercises the library from outside.
