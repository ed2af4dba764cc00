# torbox_companion

The decision logic of a TorBox dashboard, written in Verus with its contracts proved:
which downloads and files are selected, how a raw download status is classified and
styled, which rows the table filters keep and in which order it shows them, how a poll
of the service is merged into the rows on screen, how search results are sorted and
grouped, how pasted upload links are split, what an upload run records, and the
history behind the network activity chart.

- `src/` is the verified library. Calls into `chrono`, `regex` and the standard
  library's Unicode case mapping stand behind a few small trusted wrappers, each with a
  doc comment saying what its contract claims.
- `tests/` runs the library on concrete values.
- `app/` is the browser-side glue: stored JSON forms of the records, browser storage,
  figures shown with fractions, the chart drawn on its canvas, and the loops that send
  requests and feed the answers back to the library.

The set of expanded search-result groups is keyed by group name. vstd models the
contents of a `HashSet` only for keys it knows how to hash (integers, `bool`), not for
`String`, so no operation on a `HashSet<String>` could be proved to add or remove a
name. `ExpandedGroups` therefore keeps the names in a `Vec<String>` whose invariant is
that no name occurs twice, and its view is the set of those names.
