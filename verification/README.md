# pasteboard

The verified core of a clipboard-history manager.

`src/` is verified with Verus:

- `hex`, `hashing`: content hashes (XXH3-64 of the bytes, in lower-case hexadecimal).
- `paths`: from a `file://` URL to the decoded local path, and a path's file
  name in the Unix or the Windows style.
- `json`: the JSON array text of a list of strings.
- `content`: the kinds of content and how each history entry is built. Entries
  for files follow the file list; the layout of text, HTML, rich-text and image
  entries is this library's own choice, documented on their constructors.
- `manager`: which places of the pasteboard are read, in what order, and when an
  entry is new (its hash differs from the last one seen).
- `records`: the values used to store and query entries and tags.

`app/` holds what talks to the system: the pasteboard watcher, file sizes read
from disk, the SQLite database (entities, queries, migration) and the threads
that connect them. `tests/` runs the library against the real outside crates.
