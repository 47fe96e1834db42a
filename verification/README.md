# kachina

The logic of the Kachina installer, verified with Verus: parsing its command
line, reading the files embedded in a packed installer, deciding how each file
of a release is installed (embedded copy, patch, or download), the commit
journal and its recovery decisions, the download service's challenges and
URLs, classifying failures, the UI session's state machine, the native ready
page, the elevated helper's messages and framing, plugin and SSH source URLs,
runtimes, registry entries, mirror archives and uninstall lists.

Every function in `src/` has a contract proved by Verus. Calls into outside
crates (`url`, `regex`, `chrono`, `ignore`, `sha2`, `chksum-md5`) stand behind
small trusted wrappers whose doc comments say what is assumed of them.

Layout:

- `src/` — the verified library, one module per concern (`cli`, `bundle`,
  `journal`, `commit`, `file_ops`, `ui_session`, `native`, `ipc`, ...);
  `text` and `sorted` hold the shared character-level helpers and the
  ordered, repeat-free lists of texts.
- `tests/` — tests of the library on concrete values.
- `app/` — the command-line entry: reads the arguments and the packed
  installer from disk and drives the library. The Windows-only host (window,
  WebView2, registry, elevated helper) is not part of this build.
