# wikimind

The core of a desktop assistant for a personal Markdown wiki, written in
Verus. The functions in `src/` carry contracts that Verus proves, except
the trusted items below, whose contracts Verus takes on trust because their
bodies call code it does not read:

- `text::push_char` (std `String::push`);
- `diff::diff_lines` (`similar`'s `TextDiff::from_lines`), with the name
  `diff::line_diff` for the changes it finds;
- `wiki::utc_stamp` (chrono's `DateTime::from_timestamp` and `format`), with
  the name `wiki::formatted_utc`;
- `sessions::md5_hash` (std's `DefaultHasher`), with the name
  `sessions::default_hash`, and the declared type `std::io::Error`;
- `chat::parse_tool_json` (`serde_json`), with the name `chat::tool_json`;
- `chat::json_text_member`, `chat::json_number_member`,
  `chat::json_flag_member` and `chat::json_parse_error` (`serde_json`), with
  the names `chat::tool_input_json`, `chat::tool_input_number`,
  `chat::tool_input_flag` and `chat::tool_input_error`;
- `chat::error_object` (`serde_json`'s `Value` display), whose result is
  stated in full by `chat::error_object_json`.

- `src/` — the verified library:
  - `text`, `paths`: characters, decimal and hex digits, trimming, splitting,
    and Unix path components, `file_name`, `join` and prefix stripping.
  - `wiki`: front matter framing, pages from a front matter parse, the
    snapshot directory and file names of page versions, page path checks.
  - `settings`: the settings file and the directory layout of a workspace.
  - `diff`: line diffs (through `similar`) and their rendering.
  - `outline`: the outline, section and merge phases of wiki generation.
  - `skills`: the built-in skills and the registry that finds them by id.
  - `chat`, `file_tools`: the system prompt, tool call planning, the reading
    of a streamed model turn, the request/tool loop, server-sent event
    lines, and the text operations of the file tools.
  - `anthropic`: model API settings, endpoint and reply text.
  - `conversation`, `infra`, `sessions`: conversation bookkeeping, feature
    switches, hooks, permissions, task packets and session directories.
- `app/` — ordinary Rust around the library: files, HTTP, logging, the
  serde copies of the library's types, and the commands the user interface
  invokes.
- `tests/` — tests of the library on concrete values.
