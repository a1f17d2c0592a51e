# llm_gateway

A gateway in front of servers that generate text. It answers a prompt from what it keeps, hands
it to the best server with room for it, or makes it wait and serves it later. Answers are kept in
a key store, written to a file store and put into search indexes, from where they come back as
context of later prompts.

## Layout

- `src/` is the library, verified with Verus. Every piece of work is a state machine: its state
  and the reply to the last effect give the next state and the next effect, or the end.
  - `request`, `queue`, `llm`, `embedding`, `stream`, `scan`, `storage`, `index`, `home` are the
    machines, `server` the choice of a server, `search` what is asked of an index, `assets` the
    files served as they are.
  - `protocol` holds the effects and replies, `types`, `state`, `keys`, `clock` and `text` what
    they are made of.
  - `world` is a small model of the surroundings, and the `*_laws` modules prove in it what each
    piece of work comes to from start to end.
  - `outside` holds the calls into other crates, and what the proofs take on trust about them.
- `app/` is the service: routes, configuration, and one loop that performs the effects.
- `tests/` runs the library.
