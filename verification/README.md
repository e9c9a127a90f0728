# archive_parser

Reads an unpacked Twitter archive and posts its tweets as statuses on a
Mastodon server, writing them into Mastodon's PostgreSQL database.

The library in `src/` is verified with Verus:

- `text` — string operations (`replace`, `contains`, `starts_with`, integer
  parsing and formatting, `Path::file_name`) specified over `Seq<char>`.
- `time` — calendar date-times with their validity invariant, and the
  calls into `chrono` that read and print them.
- `tweet` — a tweet: its ids, the text to post, retweet and deleted-link
  detection, the insert statement, and the comparison with a stored status.
- `archive` — the archive as a map from id to tweet, with orphaned replies,
  retweets and tweets that refer to deleted tweets pruned.
- `media` — photos, videos and animated GIFs, the choice of the highest
  bitrate variant, and the names of media files in the archive.
- `sql` — the insert, select and update statements, built with `sea_query`.
- `mastodon` — media upload replies and the pacing of requests from the
  server's rate-limit headers.

`app/` holds the command-line program: reading files, JSON decoding with
`serde`, HTTP with `reqwest` and the database connection with `postgres`.
