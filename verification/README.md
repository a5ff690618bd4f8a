# libosu

Data structures and parsers for osu! files, with their behaviour stated as
Verus contracts and proved.

## Layout

- `src/` is the verified library.
  - `binary`: little-endian integers, ULEB128 numbers and strings of the
    binary formats.
  - `db`: the `osu!.db` database; `replay`: replay files (`.osr`) and their
    LZMA-compressed action streams.
  - `text`, `fields`, `errors`: decimal and floating-point text, splitting
    and joining of fields, and the errors of the text formats.
  - `color`, `events`, `hitsounds`, `timing`, `hitobject`: the lines of a
    beatmap; `beatmap`: whole `.osu` files, read and written;
    `beatmap_osz`: the older readers of `.osu` files; `beatmap_osz_laws`:
    the proof that the older reader reads back what `as_osz` writes.
  - `beatmap_roundtrip`, `beatmap_sections`, `beatmap_lists`,
    `beatmap_laws`: the proof that a written beatmap reads back as itself.
  - `sorting`: the stable sort by time used on timing points and hit objects.
  - `lookup`: timing points and hit objects by time.
  - `enums`, `math`, `api`, `pp`, `rosu`: game enumerations and mods, points,
    web API values and request addresses, performance inputs, and the
    hand-over to the rosu-pp calculator.
- `tests/` runs the library on concrete inputs.
- `app/` holds what stays in ordinary Rust: file and network I/O, the
  floating-point calculations (difficulty, performance points, geometry),
  and serde copies of the API types.

Floating-point values of the text formats are kept as their text, checked
to be numbers; those of the binary formats are kept as their bits.
