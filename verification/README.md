# converter_bot

A messenger bot that converts files between formats. The library under `src/` holds its
decisions, each with a contract proved by Verus:

- `files`: what the bot keeps of a received file (name, lowercased extension).
- `formats`: the table of conversions, the formats several files share, and which
  converter (native image codec, ffmpeg, document script) handles a pair of extensions.
- `menu`: the inline menu of formats (three buttons to a row, then a cancel row) and its text.
- `media_group`: albums collected file by file until the whole album is in.
- `jobs`: temporary paths and output names of a conversion (entries directly under `temp/`
  for plain file names), and the bookkeeping of a run (converted files, paths to remove,
  error messages).
- `steps`: the work on each chosen file, step by step: look up, name, create, download,
  convert, with any failure recorded and the next file taken.
- `finish`: the end of a run, step by step: sending results in order, stopping at a failed
  send, the error report, cleanup, and closing the exchange.
- `dialogue`: the chat's states and what each command, file message and button press leads to.
- `text`: character-level helpers (last piece after a separator, replacement, decimal, join).

`app/` is the process around it: the messenger connection, downloads, image codecs,
external programs and the file system.
