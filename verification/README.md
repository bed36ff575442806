# openw8s (verified core)

`openw8s` inspects open-weight models, writes and validates `.openw8s.yml`
environment manifests, and launches the runtime command they describe.

The crate is split in two:

- `src/` is the library, written in Verus and verified:
  - `gguf` — the GGUF header and metadata parser, as a function on bytes with
    an exact specification, metadata lookups, architecture hints and the
    parameter estimate; `law_complete_prefix_reads_like_file` shows that a
    prefix whose metadata was read in full reads like the whole file.
  - `manifest` — the manifest fields, normalization (with the deprecated
    `parent_branch` promotion) and the v0.1 validation rules, with laws on
    them (normalization is idempotent, a valid lineage is coherent, ...).
  - `inspect` — repo-id normalization, size tokens in names, choice of the
    representative GGUF file, weight-file sizes and the decisions on Hub
    responses.
  - `vram` — quantization formats, architecture hints, the KV-cache shape and
    the transformer parameter count.
  - `init`, `run` — the default runtime commands and the memory preflight.
  - `text`, `binary64` — character-level text operations and IEEE-754 ordering
    on bit patterns, which the rest builds on.
- `app/` is the command-line program around it: argument parsing, YAML and
  JSON documents, HTTP requests, process probes, floating-point VRAM figures
  and terminal output.

Memory sizes in manifests are IEEE-754 doubles; the library holds them as
their bit patterns and compares them as the hardware does.
