# wind_coordinator

The decisions of an input-method coordinator, verified with Verus: which candidates are
shown and in which order, what choosing one comes to, what is learned from it, and how
associations, auxiliary codes, added words, commands and character classes behave.

`src/` holds the decisions. Engines, stores, windows and the application in front are
outside: their answers come in as plain values, and what is left to be done goes out as a
step to take or as effects in an `Outbox`. `app/` performs them, on threads, files and
processes of the desktop. `tests/` runs the library on concrete values.

| module | subject |
| --- | --- |
| `coordinator`, `state`, `candidate`, `action`, `keys` | what everything else speaks of |
| `text` | characters, widths, trimming, numbers as text |
| `ranking`, `assembly`, `building`, `freq` | the candidate list of an input |
| `view` | pages, the composition, cursors |
| `selection`, `choosing` | choosing a candidate |
| `learning`, `addword` | learning words, and adding them by hand |
| `assoc`, `aux_code`, `ops`, `command`, `config`, `charset` | the features around typing |
