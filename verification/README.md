# formsy_cli

Command-line client (`fsy`) for the formsy code-graph server: it compiles a repository into
the server's graph, queries it in natural language, and walks the call graph.

The library under `src/` is verified with Verus. It holds the client's logic with contracts:

- `collect`: which repository files a compile request carries (by requested extension, or by the
  languages the backend parses), sorted as paths sort and without duplicates, each labelled with
  its language; and the reading of `git ls-files -z` output.
- `commands`: the options of each command and the requests built from them, the
  task-association rules, the compile command's steps (reuse a snapshot, fall back to collecting
  sources only on a 404, never send an empty file list), and the exact lines each command prints.
- `client`: endpoint URLs, the authorization header, success statuses and error messages.
- `capabilities`: the machine-readable capability document, with the build's identity recorded
  as `unknown` where it was not given (the commit) or is not `true`/`false` (the dirty flag).
- `models`: request and response shapes and their default field values.
- `text`, `numbers`: trimming, case, lines, joining, decimal rendering and `u32` parsing, each
  stated over `Seq<char>`.

`app/` is the program around it: argument parsing (clap), the file system and git, HTTP
(reqwest) and JSON (serde).

The build identity comes from the environment at compile time (`FSY_BUILD_GIT_COMMIT`,
`FSY_BUILD_GIT_DIRTY`, `FSY_BUILD_TARGET`); where they are not set it reads `unknown`.
