# mini-oc-gui-serve

A launcher for `opencode serve` with a terminal menu, a small HTTP surface, and
a path list that is kept in step with a remote store.

The library under `src/` holds what the program decides: how configuration is
found and read, who is let in, how the path list changes and is merged with its
remote copy, when child processes may start and stop, and what the terminal
shows for each key and click. It does no I/O. Every function states in its
contract what it returns, and Verus proves it.

| Module     | What it decides |
|------------|-----------------|
| `account`  | account settings, and what the account server answers |
| `attach`   | the `opencode` client, terminals and folder dialogs |
| `auth`     | HTTP Basic credentials and session cookies |
| `cli`      | command-line output and start-up |
| `config`   | locations, ports and the tunnel configuration |
| `domain`   | path entries, sessions and projects |
| `envfile`  | reading and rewriting env files |
| `handlers` | what the HTTP endpoints answer |
| `host_path` | paths as the machine reads them |
| `icons`    | which icons are written |
| `serve`    | the supervised processes and the ports they use |
| `storage`  | the path-list file, its remote copy, merging and pushing |
| `text`     | string functions with their meaning as sequences |
| `time`     | instants and their text |
| `ui`       | the terminal interface: state, input and drawing |
| `upgrade`  | upgrades of `opencode` and `oh-my-openagent` |

The program itself is under `app/`: it reads files and the environment, sends
requests, runs processes and draws the frames, and hands the library plain
values. Called as `path-list-actor`, by a link of that name, it manages the
`path-list.md` of the working directory instead.
