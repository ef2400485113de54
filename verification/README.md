# webworm

Keeps bookmarks of web series and TV shows and follows their episodes.

- `src/` is the library, verified with Verus:
  - `base`, `cli`, `js_bookmark`, `pattern`: bookmarks whose url holds the
    current episode between `{{` and `}}`, the listing and advancing of the
    command line tool, and the form the desktop front end shows.
  - `movie`, `movie_details`, `bookmark`, `link`, `bookmark_link`,
    `identifier`, `id`: shows of the movie database, their seasons and
    episodes, bookmarks that follow them, and streaming links.
  - `state`, `update`, `gui`, `view`, `message`, `keyed_map`, `save`,
    `tmdb`: the front end as a state machine: each message changes the state
    and names the work to be done outside (requests, files, clipboard).
  - `args`: the desktop program's options and where its bookmarks file lies.
  - `text`: numerals, searching, replacing and splitting text.
- `tests/` runs the library on concrete values.
- `app/` is the command line tool: argument parsing, the bookmarks file,
  fetching pages.

The desktop window itself is not built here: its widgets (the task list,
the bookmark cards, the details view) are drawn with a GUI toolkit that this
crate does not depend on. What those widgets compute — the texts they show,
the state changes and the work each message asks for — is in `src/`
(`view`, `update`, `gui`, `task`), ready for a front end to draw.
