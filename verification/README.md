# Aoraki CLI

Deploys an app's commits straight to its own servers, through a gateway, or to
a lease of the Aoraki cloud, and reports them to the Aoraki console.

The decisions are a verified library; the program around it reads files, runs
commands and talks to the network.

## Layout

- `src/`: the library. Its functions have contracts that Verus proves, apart
  from those listed below under what is taken on trust.
  - `config`, `context`: the app's environments, the consoles and servers that
    a machine knows, and how a command picks among them.
  - `config_file`, `document`: edits of the TOML files, and what is relied on
    of `toml_edit`.
  - `json`, `text`, `names`: values, strings and ordered maps.
  - `ssh`, `util`, `hook`: commands for a box, quoting, and the hook that
    deploys there.
  - `gateway`, `console`, `reports`, `http`: requests, answers, and deploy
    events.
  - `commands`: what each command decides, asks for and says.
- `app/`: the program.
- `tests/`: tests of the library with the real crates.

## What is taken on trust

The contracts of the functions of `toml_edit`, `serde_json` and `chrono` that
the library calls, and of `String::push`, are believed, not proved. Each is
named, with what is claimed of it, where it is declared: `document`, `json`,
`reports` and `text`. The function that words a TOML error has no contract.

An edit of a TOML file gives the text that `toml_edit` writes for the edited
map. That this text reads back as that map is claimed where it is TOML. For a
file that mixes dotted keys with headers through the same tables, `toml_edit`
may write a text that is not.

## Reading the contracts

A contract speaks of views: strings as sequences of characters, JSON values as
trees, TOML files as maps. Where a command goes through stages, a spec function
says which stage follows on what was heard; the laws next to it say what holds
of every course that a deploy can take.
