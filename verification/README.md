# xdu-view

A terminal browser for a file index: a list of partitions and directories, or a
cascade of columns, with sorting, filters and previews of files.

The library under `src/` holds what the browser does, with contracts that Verus
proves:

- `text`, `encoding`, `format`, `ansi`: texts, UTF-8, numbers in words, escape
  sequences
- `filetype`, `preview`: what a file is, and a sliding window over its lines
- `entry`, `filters`, `query`, `root`: listings and their orders, filters, SQL, the
  root of a partition
- `app`: the state; `load`, `list`, `tree`, `input`: what it goes through
- `keys`, `reply`: what a key does, and what a reply to a request does
- `soundness`, `laws`, `place`, `reading`: what holds at every moment, and what is
  promised
- `layout`, `table`, `render`, `status`: what is on the screen

The browser does no input or output. It takes a key or a reply and gives a
request: for rows of the index, the beginning of a file, or the next key.
`app/` carries the requests out and draws the screen.
