# openansys_agent

The core of a command-line agent that writes ANSYS command streams with the help of a language
model, runs them, has failed runs repaired, and exports the finished model for LS-DYNA. The core is
written in Rust and verified with Verus.

- `src/` is the verified library. It holds texts as sequences of characters and decides everything
  that can be decided from plain values.
  - `text`, `number`, `clip`, `order`, `clock`: texts, numbers, cuts, sorting, times.
  - `history`, `messages`, `conversation`, `turn`: the conversation with a model, its token
    accounting and its compaction, and the steps of a turn.
  - `skills`, `tools`, `session`, `cli`, `ui`: skills, the shell tool, sessions, the command line
    and what the terminal shows.
  - `ansys/`: source materials, requests to the model, reports of ANSYS, checks, and the loops that
    run and repair.
- `app/` is the program around it: files, processes, the network and the line editor.
- `tests/` runs the library on concrete values.

Each module states its results over `Seq<char>` and small ghost types. The theorems that relate
several functions are the public proof functions whose names begin with `law_`.

Two things are taken on trust: that `String::push` appends its character (`src/text.rs`), and what
`chrono` makes of an instant (`src/clock.rs`).
