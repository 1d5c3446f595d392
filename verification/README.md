# code_review_engine

A verified library, written in Verus, that analyzes the changes of a commit:

- `diff`: line changes between two versions of a file (patience diff from the
  `similar` crate), numbered from 1 on each side;
- `syntax`, `parsing`, `engine`: complexity metrics from tree-sitter syntax
  trees (functions, branches, nesting depth, lines holding code), and which
  files are analyzed;
- `suggestions`, `ordering`, `presentation`: review suggestions derived from an
  analysis, grouped by file, and how changes are shown;
- `session`, `github`, `token`: the state of a review session over GitHub pull
  requests, the GitHub addresses it uses, and the stored form of a token;
- `text`, `model`: string helpers specified over `Seq<char>`, and the values of
  an analysis.

`app/` holds the desktop interface (eframe/egui), the network and git I/O, JSON
output and the C entry points. It calls the library for the session's state
changes and the analysis; what it still decides itself is how to react to a
failed request or an unreadable reply, and how it collects the changed files of
a commit.
`tests/` exercises the library with the outside crates linked.
