# descargador

The verified core of a desktop application that downloads YouTube videos, or their
audio as MP3, with yt-dlp (or the older youtube-dl). The interface is in Spanish.

- `src/` is the library, written in Verus and proved:
  - `mode`: the download modes and how their names are read;
  - `request`: which links are accepted (YouTube only) and how a request is checked;
  - `platform`: program names, path separators, Windows path prefixes, joining paths
    and taking their parent as the standard library does, reading `PATH`;
  - `locate`: where the downloader, ffmpeg/ffprobe, Deno and Node.js are looked for,
    and in which order, over a model of the file system as a set of known files;
  - `command`: the downloader's arguments, recognising a Python script, and the steps
    of starting it with `python3`, then `python`;
  - `ytlog`: the downloader's console output (colour codes, progress numbers, the
    saved file's path) and the report shown at the end;
  - `settings`: the saved settings and the choice of download folder;
  - `text`: the character-level text operations the rest is stated with.
- `app/` is the Tauri desktop shell: windows and dialogs, child processes and their
  reader threads, the settings file, the failure log, and floating-point progress values.
- `tests/` runs the library on concrete inputs.
