# ferium

A command line mod manager for Minecraft (profiles of mods from Modrinth,
CurseForge and GitHub Releases, and modpacks), written as a library whose
decisions are specified and proved with Verus, and a thin program around it.

## Layout

- `src/` — the verified library. The decisions the program makes stand here
  with their contracts: parsing identifiers, adding projects and checking their
  compatibility (`add`), the filters and the choice of the latest compatible
  file (`config`, `upgrade`), grouping the failures of an addition
  (`summary`), scanning files by their hashes
  (`scan`), cleaning the output directory (`download`), profiles, modpacks,
  removal, listing and export (`subcommands`), and the helpers of the first-time
  setup (`util`). `resolve` holds a resolver that adds a project together with
  its dependencies, as a state machine driven by the platforms' answers; the
  program itself does not use it (an upgrade resolves dependencies with the
  queue of `subcommands::upgrade`). Calls into outside crates (`regex`, `onig`, `sha1`, `sha2`,
  `furse`, `std::path`, `str::to_lowercase`) go through small trusted wrappers
  whose contracts name what the call returns.
- `tests/` — tests of the library on concrete values.
- `app/` — the `ferium` binary: command line parsing (`clap`), the JSON
  configuration file (`serde`), requests to Modrinth, CurseForge and GitHub,
  prompts, downloads and zip archives. It hands the library plain values and
  carries out what the library decides.
