# git_branchless test helpers, verified

A Verus library for the parts of git-branchless's test helpers that decide
things: how a `git` command is laid out (arguments, a cleared environment with a
fixed author, committer and date, and a `PATH` made of the helper programs'
directories), how its exit code and output are checked and cleaned of
machine-specific paths, which steps set up a repository or commit a file, which
Git versions support which features, and how strings naming commits resolve.

- `src/` is the verified library: `git` (commands, output), `steps` (multi-step
  operations as lists of steps), `options`, `version`, `resolve`, `paths`
  (parents, joins and `PATH` lists) and `text` (decimal formatting, padding,
  replacement, joining).
- Work that needs the outside world is driven step by step: `Resolution` says
  which string to look up next and stops at the first that fails, and
  `StepRun` hands out the steps of an operation in order and ends it at the
  first failure.
- `app/` starts the processes, touches the file system and reads the
  environment, then hands what it found back to the library.
- `tests/` runs the library on concrete values.
