# insulator

The verified core of the Insulator desktop client, written in Verus.

`src/` is the library. Every function in it carries a contract that Verus
proves, except five small wrappers around standard-library and `url` calls
(`string_of`, `decode_utf8_lossy` and `utf8_chars` for text decoding,
`unicode_lowercase`, `form_urlencode`), whose contracts restate the
documented behaviour of the call and are trusted:

- `theme`, `appearance`: theme preference, window style and colour theme;
  how the active palette and the native window appearance are resolved; the
  base palettes.
- `autocomplete`, `composer_sources`: the composer's completion popup (rows,
  keyboard cursor, dismissal, accepting a row, styled runs) and the command
  and file indexes it draws from.
- `project_dialog`: the project source chooser, the GitHub clone form and the
  rename dialog.
- `haptics`, `daemon`, `platform`, `fonts`: haptic feedback settings, daemon
  launch decisions, where the daemon executable is taken from, the host name, the parsers behind the platform
  integration, and the font family list.
- `text`: character-level helpers (whitespace, trimming, ASCII case).

`app/` is the thin desktop-side layer around it: environment, processes,
files, serialisation of the stored settings, and the floating-point slider
state. `tests/` exercises the library on concrete values.
