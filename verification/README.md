# issuelist

A terminal browser for the open GitHub issues of the repository in the current
directory, with a preview of each issue's body and comments.

- `src/` is the verified library (Verus): the browser state and what every key
  does to it (`app`, `input`), the exchange with the background fetcher
  (`worker`), the screen content for a terminal area (`screen`, `ui`), the
  parsing of the `origin` remote URL (`repo`), the API endpoints and the list
  order (`github`), command output handling (`command`), cache file names
  (`cache`) and character-level helpers (`text`).
- `app/` is the program around it: the terminal loop and drawing (ratatui,
  crossterm), the `git` and `gh` processes, JSON (serde) and the cache files.
- `tests/` exercises the library on concrete values.
