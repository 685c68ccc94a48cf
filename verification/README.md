# var_desktop

The backend of a desktop application that analyses videos of the molten pool
in vacuum arc remelting (VAR) with a Python worker: it imports videos into a media library,
keeps a queue of analysis tasks, schedules them under a concurrency limit and
the machine's free resources, runs the worker and records what it reports,
and installs the Windows runtime package that carries the worker and its
tools.

## Layout

- `src/` — the library, verified with Verus. Each module states its
  behaviour in `requires` / `ensures` contracts over spec functions:
  - `queue`, `scheduler`, `tasks`, `schema` — the task queue, scheduling,
    listing and paging, deletion rules and the database schema steps;
  - `worker`, `task_import` — worker events and progress, task creation;
  - `runtime`, `resources`, `gpu`, `paths`, `media` — runtime packages,
    where files and tools are found, GPU and driver checks, directories;
  - `logging`, `clock`, `text`, `sorting`, `report` — log rotation, time
    stamps, string helpers, ordering and report export;
  - `trusted` — the few calls into outside crates (chrono, sha2, base64,
    uuid) and std that the library makes, each behind a contract.
- `tests/` — tests of the library on concrete values.
- `app/` — the desktop shell around the library: Tauri commands, SQLite,
  the media HTTP server, processes, files and settings.
