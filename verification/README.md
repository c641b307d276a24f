# release_parsers

Extraction of metadata from the file names of manga and light-novel releases:
extension, publisher, volume, chapter, year, revision, edition, release group,
the PRE / Digital / Scan / Digital-Compilation / ED markers, and the title that
is left once all of these are taken out.

- `src/text.rs`: whitespace trimming, prefix stripping, substring search and
  unsigned integer parsing, each proved against a specification over `Seq<char>`.
- `src/pattern.rs`: the regular-expression engine (`lazy_regex`) and
  `str::to_lowercase`, behind trusted wrappers whose results are named.
- `src/extract.rs`: the extractors. Each one states its result exactly in terms
  of the named regex results, and proves that the reported text is a piece of the
  input.
- `src/title.rs`: the final title cleanup.
