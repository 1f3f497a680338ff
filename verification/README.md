# boulder_upstream

Storage rules for the sources that a package recipe builds from: archives and git
repositories. Verified with Verus.

The library decides; it touches no file, no network and no repository. Storing, sharing and
removing are *programs* (`effect::Program`): a program names the action that it waits for,
the host performs it and hands the reply back, until the program is done. The proofs speak of
whole conversations, whatever the host replies.

| Module | What it holds |
| --- | --- |
| `effect` | actions, replies, programs, and what it means to run one |
| `path`, `uri`, `text`, `digest`, `command` | paths, URLs, quoted text, SHA-256, command lines of git |
| `cache` | where an archive is kept, from its URL and its digest |
| `removal` | removing entries and the directories that they leave empty |
| `git2wrap` | what is done with bare repositories and worktrees |
| `upstream` | single archives and repositories in a storage directory |
| `recipe`, `build` | the upstreams of a recipe: parsing, storing, sharing, syncing, removing |

`build::guarantees`, `build::syncing` and the lemmas of `upstream` state what holds of storing,
sharing and making upstreams available.

`app/` is the host: it performs the actions with `tokio`, `fs-err`, `nix` and `git2`, and
takes the rest (progress bars, requests, directory helpers) from a trait, `Services`.
