# smech_farm

A self-hosted, distributed build farm: an orchestrator with a web dashboard, a REST API and a shell,
workers that build jobs from a shared folder and report how they ended, and a client. Workers in
other networks can join through an optional WireGuard tunnel.

`src/` is the farm's logic, verified with Verus. `app/` is the program around it: command lines,
files, the network, child processes, and the SQLite tables.

## How the two meet

The library decides and the program acts. A procedure that has to act between its decisions, such as
working off the download queue or letting a worker into the tunnel, is a function from its stage and
a reply to the next stage and a step: effects to have, and a question to answer (`src/work.rs`). The
program runs every procedure with the same loop (`World::drive` in `app/world.rs`).

Each step function has a contract that names its outcome exactly, and laws about whole procedures
stand next to it as proof functions named `law_...`.

## Layout

| Modules | What they hold |
|---|---|
| `text`, `order`, `paths`, `base64`, `json_text`, `payload`, `http` | text, and what is written with it |
| `records`, `config`, `clock`, `work` | what the farm knows, and how procedures ask and act |
| `serve`, `api`, `webui` | requests, routes and answers, and the dashboard |
| `packages`, `jobs`, `workers`, `gateway` | the download queue, compile jobs, heartbeats, the daemon |
| `peers`, `wireguard` | the tunnel on the orchestrator |
| `shell`, `commands` | the orchestrator's shell |
| `worker`, `builds`, `wg_setup` | the worker |
| `client` | the client |

JSON objects that workers and clients send are written with `serde_json`; what the library relies on
there is stated at `object_text` in `src/payload.rs`.
