# notebooklm_api

A verified client library for Google NotebookLM's web RPC protocol, with a
command line around it.

- `src/` is the library, written and proved with Verus: the parameters of
  every RPC call (`api`, `artifacts`, `research`, `payloads`, `chat`), the
  batchexecute envelope and answer decoding (`rpc`), reading the positional
  answers (`responses`, `types`), the retry loop, backoff and error mapping
  (`transport`), the conversation history, credentials (`auth`), Markdown
  and CSV output (`format`, `output`), and a JSON document model (`json`)
  whose text form is read and written by `serde_json`.
- `app/` is the `notebooklm` command line: argument parsing (clap), the HTTP
  client (reqwest, tokio), files, and printing.
- `tests/` runs the library on concrete inputs.

Calls to outside crates (serde_json, regex, urlencoding, reqwest's URL and
status tables, uuid) sit behind small trusted wrappers whose contracts say
what those crates do; everything else in `src/` is verified.
