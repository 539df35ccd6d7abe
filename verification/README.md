# mcp-caldav

An MCP server that exposes CalDAV calendars to LLM clients: it lists
calendars, lists events in a date window (expanding recurring events),
searches events by text, and shows the full details of an event.

The decisions the server makes are a library verified with Verus (`src/`);
the program around it (`app/`) does the I/O.

## Layout

- `src/config.rs` — accounts, what each auth type needs, and the credentials
  a request carries.
- `src/error.rs` — the error type, its messages and JSON-RPC codes, and what
  an HTTP status means.
- `src/dav/xml.rs` — the WebDAV multistatus reply model (partial failures do
  not fail a reply) and the XML request bodies.
- `src/dav/client.rs` — resolving hrefs and picking the calendars out of a
  PROPFIND reply.
- `src/ics/` — the layered ICS parser (the `icalendar` crate, then a
  regular-expression fallback), TZID resolution and date-time reading
  (`chrono`, `chrono-tz`), recurrence expansion (`rrule`), sorting, and the
  text each record is shown as. `src/ics/zoned_text.rs` makes sure every
  date-time handed to the recurrence expander is in UTC or in a named zone,
  since the expander would read one without a zone in the machine's zone.
- `src/server.rs` — what each tool does with its arguments and with what the
  server returned: which RRULE and EXDATE/RDATE lines feed the expansion,
  which account serves a URL, how a search uses the server's hits before
  filtering the whole window itself, and how replies are rendered.
- `src/text.rs` — the string model shared by the contracts.
- `app/` — configuration file loading, HTTP requests (`reqwest`), XML
  decoding (`quick-xml`), the calendar cache (`moka`) and the MCP plumbing
  (`rmcp`).

Contracts are stated over views (`Seq<char>` for strings); results of outside
crates that take pages to state are named by uninterpreted spec functions,
and the laws the library keeps are public proof functions named `law_*`.
