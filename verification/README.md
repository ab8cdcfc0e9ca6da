# page_manager

Unified management of browser tabs, bookmarks, closed-tab history, archived
page content and search over all of them, with the desktop integration
around it (hotkeys, notifications, tray, performance monitoring), written in
Verus: the library's behaviour is stated in contracts over mathematical
models, and Verus proves the code against them; the few calls into outside
crates and std that Verus cannot read are trusted items with stated contracts.

Layout:

- `src/` — the verified library, one module per concern (`matcher`, `sync`,
  `unified_manager`, `change_detector`, `content_archiver`, `history`,
  `search`, `remote_controller`, `hotkeys`, `performance`, `page_results`,
  `system_integration`, `flutter_ui`, `ui_factory`, `native_ui`), helpers
  (`text`, `html`, `digest`, `sort`, `model`) and the trusted calls into
  `url`, `chrono` and `uuid` (`platform`), plus `str::to_lowercase`,
  `String::push`, the `Debug` form of a `str` and `char::is_alphanumeric`
  (in `text` and `content_archiver`). Properties that relate several
  operations are stated as `law_*` proof functions.
- `tests/` — tests run against the compiled library.
- `app/` — the input/output around the library: the settings file, media
  files written to disk, process memory, pages fetched for change checks,
  and browsers driven through a connector.

Times are milliseconds since the Unix epoch; percentages and rates are
integers or exact fractions.
