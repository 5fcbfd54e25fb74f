# ClawRig

A small self-hosted gateway between people, language models and tools. Messages
come in over Telegram, the web or the command line; an agent answers them with a
model that may call tools; tools that can do harm wait for an approval.

## Layout

- `src/` is the library: everything that decides or computes. It is written in
  Verus, and what each function does is stated in its contract and proved.
  - `text`, `numbers`, `paths`, `patterns`, `sort`, `value`, `name_map`: texts,
    numbers, paths, regular expressions, documents and maps.
  - `config`, `cli`, `gateway`, `scheduler`, `channels`, `web`: settings, commands,
    and what comes in and goes out.
  - `llm`, `stream`, `agent`, `agent_manager`, `run`, `permissions`, `models`: what is
    asked of a model, how its replies are read, and how a run of an agent goes on.
  - `tools`: the built-in tools.
  - `workspace`, `project`: the files of a session, as the editor shows them.
  - `database`: the records that are kept.
- `app/` is the program around it: files, processes, the network, the database and
  the web server.
- `tests/` runs the library on concrete values.

## Trust

The proofs rest on what is stated of a few functions of other crates: regular
expressions (`regex`), JSON and TOML (`serde_json`, `toml`), a hash map (`dashmap`)
and four functions on strings of the standard library. Of its hasher it is
stated that equal texts have equal hashes. Each of these statements
stands beside a wrapper with a doc comment that says what is claimed.
