# cargo_initializr

A service that generates new Cargo projects from a description (target kind,
package name, author, description) and a choice of *starters*: small manifests
whose dependencies are merged into the generated `Cargo.toml`.

- `src/` is the library, verified with Verus: reading and merging starter
  manifests, rendering the dependency and package sections, laying out the
  generated project, reading download requests, building the front end's
  download link, the front end's state, the HTTP answers, the settings check,
  and the archive's entry names.
- `tests/` exercises the library on concrete inputs.
- `app/` is the web server around it: settings, file system, HTTP and zip
  archives.
