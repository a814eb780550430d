# pydocstring

A parser for Python docstrings in NumPy and Google style (and, for the
summary line only, Sphinx style), written in Verus. Every node of the syntax
tree carries the byte range it was read from, and the parsers' results are
specified exactly and proved.

## Layout

- `src/text.rs`, `src/ast.rs`, `src/span.rs` — byte offsets and ranges,
  line/column lookup, spanned values, the style identifier.
- `src/lexical.rs`, `src/utf8.rs`, `src/unicode.rs` — whitespace and
  trimming as `str::trim` does it, ASCII case folding, UTF-8 character
  boundaries, the Unicode classes the Google header test needs.
- `src/cursor.rs` — the line table of a source and the line-oriented cursor
  the parsers walk with.
- `src/styles/google`, `src/styles/numpy` — for each style the syntax tree
  (`ast.rs`), the parser with its specification (`parser.rs`) and the
  properties proved of every parse (`laws.rs`).
- `src/styles/sphinx` — the Sphinx summary extraction.
- `src/parser.rs` — style detection and parsing in the detected style.
- `src/error.rs` — diagnostics and parse results.
- `src/views.rs` — the documented parameters of a docstring of any style.

## What is proved

- `parse_google` and `parse_numpy` return exactly the tree that the
  specification functions `google_parse` and `numpy_parse` describe, for
  every input. A reference citation whose closing bracket lies past the end
  of its line is read as plain text; `try_parse_numpy` answers `None`
  exactly on such inputs (`numpy_fails`).
- Every range in a parsed tree lies inside the source and starts and ends
  on character boundaries; sections and stray lines come in document order
  without overlapping (`law_google_ranges`, `law_numpy_ranges`); every
  item's range is non-empty, so items start at strictly increasing offsets
  (`law_google_items_nonempty`, `law_numpy_items_nonempty`).
- A Google entry's bracketed type may run onto later lines of its section:
  the type then spans those lines, the description follows the closing
  bracket, and the lines the type spans are not read again
  (`google_entry`, `entry_bracket`).
- `Docstring::parameters` lists exactly the Args entries (Google), one view
  per name of each Parameters entry (NumPy) or the `:param:` fields
  (Sphinx), in document order (`docstring_params`).
- Reading an entry line into a section body appends exactly one entry,
  starting at the line's first non-whitespace byte, and keeps the earlier
  ones (`law_google_push_entry`).
- The top-level comma split of a range tiles it, one comma between
  consecutive segments (`law_comma_parts_tile`).
- A source has one line more than it has newlines, and an offset that
  `LineIndex::line_col` places on a line has no newline between the line's
  start and it (`law_line_starts_count`, `law_line_col_on_line`).
- A docstring of blank lines parses to the empty docstring; any other
  docstring's range covers the whole input (`law_google_extent`,
  `law_numpy_extent`).
- The body of every section is of the kind its header names, and that kind
  is the one the header's name text names, lowercased
  (`law_google_section_bodies`, `law_google_header_kinds`,
  `law_numpy_section_bodies`, `law_numpy_header_kinds`).
- `parse` returns a docstring of the style `detect_style` reports
  (`law_parse_detected_style`).
- A section kind's display name, lowercased, names that kind again
  (`law_google_kind_name_round_trip`, `law_numpy_kind_name_round_trip`).
- A result has a diagnostic of some severity exactly when the list of that
  severity is not empty (`law_severity_found`).
