# tachiyomi_backup_to_anilist

Reads a Tachiyomi backup (`.tachibk`), searches AniList for every manga in it
and writes out which titles were found.

- `src/` is the verified library: the backup records, the normalisation of
  titles, the choice of the medium a title stands for, the cache of answers,
  the decisions of the rate-limited search (retry, wait, give up), the request
  bodies and the OAuth texts, and the opening of the gzip archive.
- `app/` is the program around it: file, network and browser I/O, the
  protobuf and serde derives (on copies of the library's records), and the
  loop that performs the searches the library decides on.
- `tests/` exercises the library on concrete values.
