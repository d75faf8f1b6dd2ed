# service_access

Two pieces of an access-control stack, verified with Verus:

- `pep`: the compiler of a policy enforcement point. It turns the constraints that a
  policy decision point returns into an access scope, which a storage layer applies as
  row-level filters. Whatever it does not understand fails closed. `pep::laws` states
  what holds of every compilation.
- `principal`: the domain core of a facade for service principals. It has the models
  and wire shapes, the failure taxonomy of providers, the error model of the facade, and
  the sanitizer through which provider text has to pass.

`ids`, `json`, `scope`, `constraints`, `models` and `text` hold what both build on.

`app/` is ordinary Rust around the library: the provider interface, JSON formats, `std`
error traits and logging.

## What is taken on trust

The `uuid` crate reads and writes identifiers, `serde_json` holds parsed JSON, and
`secrecy` holds client secrets. The few functions called there, and those of `std` that
come without a specification, are wrapped by functions marked
`#[verifier::external_body]`, or described by `assume_specification`; each says in its
doc comment what is claimed of the call.
