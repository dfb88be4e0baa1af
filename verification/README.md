# compactrs

The logic of CompactRS, a Windows tool that compresses files in place with the
Windows Overlay Filter, as a library whose behaviour is stated in contracts and
proved with Verus.

- `src/` is the verified library: the batch list and its rows (filtering,
  stable sorting by column, the text of each cell), the processing queue and the
  messages the workers send, the decisions behind clicks, keys and shortcuts,
  the settings dialog (search, theme, log levels, update flow), the watch
  schedule and its file format, the release check of the updater, UTF-16 text
  and path buffers, and the console log.
- `tests/` runs the library on concrete values.
- `app/` is the Windows program around it: window creation, messages, drag and
  drop, theming calls, the HTTP download and the float-based layout engine.
