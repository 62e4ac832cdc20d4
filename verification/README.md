# llmspec

Find the LLMs that actually run well on your hardware: a command-line tool,
an interactive terminal interface, a read-only HTTP API and an MCP server that
rank a model catalog against the machine they run on.

## Layout

- `src/` is the `llmspec` library, written in Verus. Every function in it
  carries a contract that Verus proves:
  - `text` — characters, trimming, case, decimal numbers, joining.
  - `models` — use cases, quantizations and catalog search and lookup.
  - `fit` — run modes, fit levels and the context ladder a placement tries.
  - `hardware` — the GPU bandwidth table, GPU name recognition, the vendor
    tools' output lines, size suffixes and the backend choice.
  - `json` — JSON documents as a tree of plain values: read with
    serde_json, looked into, and written back out compactly or indented.
  - `verify` — the GGUF and safetensors header checks behind `verify`,
    safetensors headers read from the file's own bytes.
  - `serve` — request-line parsing, percent-decoding, routing, the `/models`
    filters and the response head of the HTTP API.
  - `mcp` — the MCP protocol's two eras, how each line of JSON-RPC is read
    and answered on the wire, the tools, their schemas and text arguments.
  - `providers` — the local runtimes, their URLs and which one to use.
  - `discovery` — a probe of the runtimes that reports each endpoint once.
  - `config` — calibrations and the store of measured throughput.
  - `doctor` — the diagnostic report's checks.
  - `keys`, `tui`, `form`, `theme` — the interactive interface's state
    machine, filters, status bar, editable forms and colour themes.
  - `display`, `cli` — column layout and the command line's shared rules.
  Besides the contracts, public proof functions state the laws that relate
  several operations (round trips of names, cycles that visit every value,
  what a key press may and may not change, what the protocol never answers).
- `app/` is the program around the library: argument parsing, the hardware
  probes, HTTP and stdio I/O, the terminal, and the floating-point fit engine
  (memory in GB, tokens per second, scores).
- `tests/` exercises the library on concrete values.

## The catalog

The catalog is read from the JSON file named by `LLMSPEC_CATALOG`
(`{"schema_version": .., "source": .., "models": [...]}`), and models in
`models.json` in the configuration directory are merged into it, replacing
entries with the same `id`.
