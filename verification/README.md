# bmsrs

Reading BMS and bmson rhythm-game charts, with the logic proved by Verus.

- `src/` is the verified library:
  - `text`, `index`, `channel`, `id`, `value`, `params`: the character-level
    readers and writers of BMS values (indices, channels, literal enums,
    `#EXWAV`/`#WAVCMD`/`#BGA`/`#SWBGA`/`#STP` values), each writer proved to
    be read back by its reader;
  - `preprocess`, `message`, `header` (and its seven header groups),
    `tokenizer`, `error`, `encoding`: turning BMS text into numbered tokens,
    with the encoding detection around `encoding_rs`;
  - `json`, `de`, `bmson`, `processor`: a JSON reader with error recovery,
    bmson version detection, the bmson data model and the processing of a
    chart into audio slices and events.
- `tests/` runs the library on concrete inputs.
- `app/` holds what Verus does not take: the serde forms of the bmson
  documents (with their floating-point fields), the deserialisation by
  version, and the conversions of JSON values and header numbers to
  floating-point form.
