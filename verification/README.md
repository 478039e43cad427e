# ikigai_name

Persistent-identifier resolution for `urn:name:*`: a registry of claimed
namespace prefixes, the claim rule that keeps any two of them from
overlapping, and the decisions behind each face — resolve, claim,
administer, negotiate a document, render its documentation, report health.

- `src/` is the verified library. `registry.rs` holds the model (segments,
  overlap, the claim rule, loading a file by claiming each entry in turn) and
  the laws proved of it; `admin.rs`, `resolve.rs`, `document.rs`, `docs.rs`,
  `health.rs` and `options.rs` hold each face's decisions with exact
  contracts; `results.rs` reads a SPARQL result set into the terms the
  documentation lists; `text.rs` holds the text operations they are stated in.
- `app/` is the server: it binds the faces into an ikigai kernel, reads and
  writes the registry through it, converts the registry to and from JSON, and
  serves HTTP.
- `tests/` runs the library on concrete values.
