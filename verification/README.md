# vecmeta

An SVG ↔ EMF vector conversion engine whose core is verified with Verus.

`src/` is the verified library:

- `wire`, `types`, `records`, `reader`, `writer`, `roundtrip`: the EMF binary
  record format; `roundtrip` proves that what the writer writes the reader
  reads back.
- `emfplus`: the embedded EMF+ paint table (alpha, linear gradients), with
  its decode/encode round trip.
- `source_embed`, `convert`: the byte-lossless mode (the source document
  carried inside the converted one) and both conversion directions, with
  the exact-recovery laws.
- `gdi`, `dc_state`, `emit_objects`, `object_playback`: pens, brushes, fonts,
  the device-context state and object table of playback, the emitter's
  object bookkeeping, and the proof that what the emitter selects playback
  selects.
- `skipped`: the non-vector record types playback skips, and the warning
  that lists them.
- `xml_doc`: the SVG document parsed by `roxmltree` into a flat node list,
  checked for its `<svg>` root, with attribute, child and `id` lookup.
- `text`, `text_util`, `svg_syntax`, `svg_props`, `css_cascade`: EMF font and
  text records, and the SVG/CSS value reading, with the precedence of inline
  style over presentation attributes over style sheets.

`app/` is the `emfsvg` command-line tool around the library: file I/O and the
floating-point geometry (scene, transforms, arcs, glyph outlines, SVG path
data and number formatting).
