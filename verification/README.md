# easl_lsp

The verified core of a language server for easl, a Lisp-like shader language
that compiles to WGSL. The library holds what the server decides and computes;
the server itself (LSP transport, async plumbing, and the calls into the easl
compiler) lives in `app/`.

- `src/tokens.rs`: the token-type legend, keyword and number-literal
  classification of leaves, and the comment/depth state carried through the
  syntax walk (rainbow brackets).
- `src/encoding.rs`: colored spans to absolute tokens, ordering by position,
  and the LSP delta encoding, with a proof that decoding gives the tokens back.
- `src/hover.rs`: choosing the type annotation with the tightest span (a fully known type breaking ties)
  under the cursor.
- `src/store.rs`: the per-document text and annotations, with read-after-write laws.
- `src/position.rs`: where a document ends (just after its last byte), for edits that replace it whole.
- `src/diagnostics.rs`: compiler and parser errors to diagnostics.
- `src/commands.rs`: structural-editing commands: arguments, checks, replies.
- `src/pattern.rs`: regular-expression matching through the `regex` crate.
