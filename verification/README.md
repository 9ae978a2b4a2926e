# termiters

The rules of a service that keeps patched branches in step with their upstream: when a branch is
rebased, tested and pushed, which conflicts a language model may resolve, how locked dependencies are
looked through, and how a report of a weakness becomes a tested candidate.

The library in `src/` is written in Verus. It does no work outside itself. A run reads a journal of
replies and halts with the next request (`journal`, `calls`); whoever drives it carries the request
out, adds the reply and starts the run anew (`replay` states that nothing that was decided changes).

- `sync` brings branches in step, `service` does so as jobs, with a report at the end.
- `llm` talks to the model: prompts, retries, streamed answers, checks on decisions.
- `protection::dependency` reads lock files, loads the archives of locked crates and reads them.
- `protection::investigate` turns a reported weakness into findings, candidates and drafts.
- `text`, `path`, `data`, `digest`, `fault`, `report` and `repo` hold what these share.

What holds of whole runs is stated in the `laws` modules next to them.

`app/` holds ordinary Rust that carries requests out: HTTP, files, the database and the clock. Git,
notifications and the protection rules are handed in as traits.
