# GitPulse

A terminal dashboard for the state of the git repositories in a directory. The
repositories stand as cards in four columns: behind, uncommitted, in sync and ahead. A
repository to which more than one of these applies stands where the most urgent one puts
it, and carries the others as tags.

## Layout

`src/` is the library, verified with [Verus](https://github.com/verus-lang/verus). It
reads no files, starts no programs and talks to no host: it says what to ask, and what
follows from the answers.

| Module | Subject |
|---|---|
| `text`, `number`, `path`, `filters`, `order`, `nav` | texts, numbers, paths, filters, stable sorting, positions on a board |
| `model` | repositories, their states, and the tags on a card |
| `git` | which questions go to git, and the repositories, worktrees and results they make up |
| `scan` | the repositories of a directory, with their worktrees filed under them |
| `json`, `forge` | remote URLs, tokens, requests to forges and what their replies say |
| `app`, `keys`, `messages` | the board: selection, keys, reports of background work |
| `cli` | what the commands print and when they fail |
| `ui` | which lines stand where on the screen, in which style |

`app/` is the program around it: arguments, files, processes, HTTP, threads and the
terminal. `tests/` runs the library on concrete values.

## Usage

```sh
# Scan the current directory
gitpulse

# Scan a specific directory
gitpulse ~/projects

# Print instead: list, fetch, pull, status; with --json for other programs
gitpulse list
```
