# kurisu_gal

The logic of KurisuGal, a local galgame manager, as a library verified with Verus, and
the desktop application around it.

- `src/` — the library. Every function carries a contract that Verus proves:
  - `library`: the game list (adding, editing, deleting, favourites, categories,
    screenshots, play sessions, cleanup);
  - `rankings`, `ranking_laws`: tier-list rankings and what their operations keep;
  - `stats`: the figures of the home page;
  - `media`, `codec`, `text`: data URIs, image types, file names, Base64, percent-encoding;
  - `bangumi`, `json`, `bangumi_fetch`: reading Bangumi API answers and the protocol that
    fills a game from them (retries, search fallback, cover download);
  - `game_launcher`: which launched games are running;
  - `path_manager`, `data_store`, `cache`, `settings`, `utils`, `error`, `logger`, `models`:
    where things are kept, the cached data, the checks on settings and paths, errors.
- `app/` — the Tauri application: commands of the front end, files, network, processes,
  screen capture. It asks the library what to do with what it reads; what remains there
  is the walking and copying of files and directories, the requests, the windows and the
  operating system's hooks.
- `tests/` — tests of the library on concrete values.
