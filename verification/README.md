# palbox

Backend of a desktop manager for a Palworld dedicated server that runs in a
container, reachable through a relay so the host's IP stays private.

- `src/` — the library, with contracts proved by Verus:
  - `config.rs`: server settings and the `-e KEY=VALUE` arguments of the container;
  - `docker.rs`: the `docker` commands that manage the container and what their
    outputs mean, as operations that ask for one command at a time;
  - `tunnel.rs`: the relay agent's container and reading its logs;
  - `rcon.rs`: the RCON wire format and the authenticate-then-command exchange;
  - `admin.rs`: in-game admin command texts and the player list;
  - `text.rs`: character classes, trimming, lines, words, search, decimals.
- `app/` — the desktop shell: runs `docker`, talks to the RCON socket, stores
  the settings as JSON, and exposes the dashboard's commands.
- `tests/` — tests of the library.
