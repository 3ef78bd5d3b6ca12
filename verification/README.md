# git-agent

The REST API of a git server, with its logic verified by
[Verus](https://github.com/verus-lang/verus).

- `src/` is the library. It decides who may do what, which git commands that
  takes and in which order, what git's output says, and what each request is
  answered. It never touches the disk or runs git: an operation asks for one
  piece of work after another, and is handed the replies.
- `app/` is the server around it. It takes requests apart, checks tokens, runs
  git, reads and writes files, and sends the answers.
- `tests/` runs the library, partly against a small model of git and the disk.

What holds of the library as a whole is stated and proved in `src/laws.rs`, and
of searches in `src/search.rs`. `src/model.rs` models what git does with the
commands of a write, and proves that writers who share a repository lose no
update and that files read back as they were written. What is believed of other crates and of the
standard library stands in `src/outside.rs` and at the top of `src/text.rs`.

The server reads `PORT` (6025), `REPOS_DIR` (`./repos`),
`CORS_ALLOWED_ORIGINS` (`*`) and `JWT_SECRET` from the environment or from a
`.env` file.
