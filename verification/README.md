# copypaster

Clipboard history for a menu-bar app, as a verified library.

`src/` is checked by Verus:

- `history` — the ring of clips: filing a copy (a re-copy lifts the card it
  already has instead of adding a second, and `add` reports true exactly
  when the cards change), restoring from disk with duplicates collapsed,
  deleting, expiry, lookup, and the cards the popup shows. Every operation
  keeps the ring at most `MAX_ITEMS` long and free of duplicate content, and
  no new clip reuses an id restored or handed out before.
- `laws` — properties across operations (a history saved and loaded back
  comes back as it was, through `stored_index`, `load_clips` and `restore`;
  the newest copy survives a restore; expiry spares clips from the future).
- `store` — clips to and from their on-disk index form, loading an index with
  its image files, image file names, and which image files are orphaned.
- `clipboard` — the watcher's steps (counter and own-write flag, concealed
  clips, filing what was read), whitespace-only text, pasteboard types that
  mark a clip as secret, raw pixels to PNG clips.
- `imaging` — PNG previews and pixel conversions; images pass between the
  `image` crate's decoder, thumbnail and encoder as plain pixels, and base64
  is stated in full. An image so large and thin that the thumbnail's
  averaging sums could overflow gets no preview.
- `paste`, `settings`, `fingerprint` — the paste steps, gate and key,
  retention, and the content fingerprint.

`app/` holds what talks to the operating system: the polling loop, the system
clipboard, the paste keystroke, the files on disk, the log, and the JSON
shapes.
