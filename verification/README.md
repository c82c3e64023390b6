# novels

A character-perception engine for fiction: characters perceive a scene
through chosen sensory fragments, remember it, and a narrator assembles
prose that may only quote fragments the characters actually perceived.

The library under `src/` is written in Verus; every function there carries
a contract that Verus proves.

- `models` — ids, characters, scenes, sensations, actions, errors, and the
  text guard that cleans free text.
- `vocab`, `prose`, `llm`, `prompt` — the fragment vocabulary, the prompts
  sent to the language models, the offline generators, and the assembly of
  narration into prose.
- `db` — what the store writes and reads: id, timestamp and JSON encodings,
  row decoding, relationship candidates and revisions, schema upgrades.
- `cli` — the command reports, session context, line splitting of the
  interactive loop.
- `distill` — checking fragments distilled from a corpus.
- `text`, `sort`, `text_map` — strings, stable sorting and text-keyed maps
  with their specifications.

`app/` is the program around the library: the database statements, the
language-model clients, the interactive loop and a demonstration run.
`tests/` runs the library on concrete values.
