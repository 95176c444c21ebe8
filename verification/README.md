# vellum

The rules of the Vellum notes app, written in Verus and proved against their
contracts: what a link-preview card shows and how long it is remembered;
which vault paths and folder prefixes are accepted; how a linked folder and
its vault are reconciled path by path; the local MCP server's resource URIs,
token check, note-tool semantics, prompts and change notifications; sharing
a note; the browser vault's blob log, blob garbage rule and command surface;
and the desktop shell's background-sync decisions.

Layout:

- `src/` — the verified library.
  `text` holds the character-sequence building blocks the other modules
  state their contracts with; `store` proves that a blob log reads back what
  was appended, even after a torn final write.
- `tests/` — concrete scenarios for every module.
- `app/` — the unverified shell: JSON files on disk, the HTTP fetch behind
  previews, the local mirror's file walk, the blob log's file, binding the
  MCP server's listener, and the timing of the notification pump. The parts it
  holds only read, write, bind and wait; their decisions are the library's.
