# nefu

The build and runtime logic of the Nefu desktop-application framework,
written in Verus with its behaviour stated in `requires` / `ensures`
contracts and proved.

- `src/` is the verified library: the configuration formats, the `.nc`
  page compiler, the resource package (trailer, AES-GCM payload, ZIP
  archive), the development server's request routing, the bridge's method
  registry and access checks, safe storage, menus, images, and the other
  modules of the framework. Calls into outside crates (hashing, ciphers,
  encodings, ZIP, TOML, JSON, images) stand behind small trusted wrappers
  whose doc comments say what each one claims.
- `tests/` holds the tests, run against the compiled library.
- `app/` is the command-line program around the library: argument parsing,
  file and network I/O, the dev server's sockets, and whatever works with
  floating point.
