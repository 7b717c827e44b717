# DSH Studio

The decisions a native desktop shell makes about the local Harness service it
installs, launches, supervises and extends, with contracts that Verus proves.

- `src/` is the library. Text, JSON documents, versions and addresses are at the
  bottom (`text`, `json`, `version`, `address`, `paths`, `logging`, `history`).
  Above them stand installing a runtime (`install`, `picker`, `candidate`,
  `transaction`, `files`, `command`), running it (`harness`, `supervisor`,
  `readiness`, `commands`, `relay`), the plugin market (`package`, `registry`,
  `catalog`, `channel`, `confirmation`, `plugins`, `manager`), and the shell
  around it (`shell`, `window`).
- `tests/` runs the library on concrete values.
- `app/` holds the files, processes and sockets around the library. It looks at
  the machine, hands what it saw to the library, and does what the library
  answers.

Calls into `semver`, `url`, `serde_json`, `getrandom` and two functions of the
standard library are taken on trust; the comment above each says what is claimed
of it.
