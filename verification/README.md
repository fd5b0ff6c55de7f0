# oxide_constructs

A verified library of constructs — units of GPU capability that live in git
repositories — written in Verus.

- `src/semver.rs`: semantic versions; parsing of `major.minor.patch` text,
  formatting, compatibility and ordering, with the text model as spec
  functions and the parse/format round trip proved.
- `src/construct.rs`: the construct data types, their abstract views,
  clones that keep the view, state texts and error messages.
- `src/registry.rs`: the registry, a map from id to construct, with
  register/lookup/removal, listings and the last-write-wins merge, and the
  merge laws (idempotent, associative, commutative without ties).
- `src/loader.rs`: loading a construct from a repository name and the
  lifecycle transitions (compile, deploy, unload).
- `src/text.rs`: character helpers.
- `app/lib.rs`: the floating-point average of the metrics.
