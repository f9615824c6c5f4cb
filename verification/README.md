# Codex Switcher

Several accounts for one coding assistant: one of them is active, the others stand by. A local proxy
hands requests on in the name of the active account, leaves it when its quota is used up or it is
banned, and goes on with the best of the others.

## Layout

- `src/` is the library, verified with Verus. It decides everything and touches nothing outside:
  which account comes next (`selection`), what a switch takes (`switch`), what is done about an
  answer (`relay`) or a message (`websocket`), what a usage report says (`usage`), what was used
  and what it cost (`token_tracker`), how configuration files are edited (`codex_config`), which
  skills a directory holds (`skills`).
- `tests/` runs the library on concrete values.
- `app/` is the program around it: files, the network, the services in the background.

## How it works

What takes more than one step is a value with a `step` function. It is told what has happened (an
answer came, a file was read) and says what to do next (send, write, wait). The contract of `step`
is a relation over the store before and after, and the public proof functions state what holds of
every step: a lock is given back on every way out, a request tries a bounded number of accounts,
the proxy goes on with no account but one that can be used. A switch on request goes to whichever
account is asked for.

Calls into other crates stand behind small functions whose contracts are believed, not proved. Each
of them names the function that it calls and says what is claimed of it.
