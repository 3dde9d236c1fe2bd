# leantoken

Token-bounded retrieval over a repository: pages of paths, JSON queries, the
history of symbols, and context for a task. The library holds the rules: what a
request may ask, which candidates stay and in what order, how an answer is cut to a
budget, and where the next page begins. Each function states its result in
`requires` and `ensures`, and Verus proves it.

- `src/` is the library. `text`, `lists` and `ordered` hold what the rest builds on.
  `files`, `json`, `history` and `context` answer the four kinds of request;
  `cursor`, `accounting` and `fitting` serve all of them. `executor` and `profile`
  say how much work runs at once and how that is measured.
- Calls into other crates stand behind small functions whose contracts are taken on
  trust: digests and base64 in `cursor`, globs and fuzzy scores in `files`, literal
  search in `context::candidates::lexical`, line differences in `history::diff`,
  JMESPath in `json::jmespath`.
- What the library cannot do itself it is handed as functions: reading files and
  revisions, paging through searches, counting tokens, measuring a serialized answer.
  Contracts say what was asked of them and what follows from each answer. The counts
  of a response are settled in `accounting`, from such measurements alone, so nothing
  else of its metadata changes.
- `app/` runs the library on tokio, reads files, searches an index and serializes
  answers.
- `tests/` runs the library on examples.
