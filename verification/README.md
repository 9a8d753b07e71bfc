# amx

amx starts coding agents in tmux panes, keeps a record of each one, and
answers for them: what each is doing, what it is asking, what it answered.

This crate is the part of amx that decides, written in Verus and proved
against its contracts:

- `src/store.rs`, `src/derive.rs` — an agent's record and a reading of it, as
  plain values.
- `src/text.rs` — the text handling every verb shares, stated over
  characters.
- `src/vendor.rs` — the vendors amx knows, and their session vocabulary.
- `src/verbs/` — one module per verb: what `ls`, `status`, `answer`, `send`,
  `stop`, `wait`, `resume`, `fork`, `doctor` and the rest decide, given what
  was read off the disk, tmux and git. Where a verb alternates between asking
  the machine and deciding, the library takes the answers as arguments and
  hands back the next thing to do.
- `app/` — a program around it that reads and writes the records, asks
  tmux and git, and prints. It runs `ls`, `status`, `statusline`, `rename`,
  `diff`, `events`, `logs`, `interrupt`, `doctor`, `answer`, `send`,
  `result`, `wait`, `attach` and `_park`. The verbs that start a vendor in a
  pane (`new`, `sub`, `resume`, `fork`, `adopt`), those that take records and
  trees away (`stop`, `clear`, `sweep`, `uninstall`) and `setup` are decided
  in the library and not run by it; neither are the `--json` forms of `ls`
  and `status`.

The laws each verb keeps stand beside it as public proof functions.
