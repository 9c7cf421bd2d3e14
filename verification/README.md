# fingerprint_kernel

A manager for fingerprint-chromium browser kernels: installed kernel versions,
fingerprint profiles and the command lines they give, preset profiles, and a
pool of browser instances that run side by side.

- `src/` is the verified library (Verus). Each module states its operations
  over mathematical models and proves them:
  - `version`: `major.minor.patch` versions, their decimal text, and the proof
    that reading back the text of a version gives the version;
  - `config`, `chromium`: kernel releases, installed kernels, profiles and the
    browser's command line arguments;
  - `store`, `manager`, `presets`: the operations on the lists of kernels and
    profiles that the store keeps in its files, the files' locations, and the
    metadata file's JSON (serde_json);
  - `pool`: browser instances keyed by identifier, their status changes,
    queries and the reports that requests give of them; stopping hands back
    the instance whose process is to end;
  - `text`, `search`: character-level helpers and first-match search;
  - `stamp`: timestamps (chrono), with the RFC 3339 shape they always have,
    and random identifiers (uuid).
- `app/` is the desktop side: JSON files (serde), child processes, async state
  (tokio) and the request handlers.
- `tests/` runs the library on concrete values.
