# rsetup

A set-up and monitoring tool for Radxa single-board computers, with its
logic written in Verus and proved against its contracts.

## Layout

- `src/` is the verified library. Each module states what its functions
  return in `requires` / `ensures` clauses over mathematical models
  (`Seq`, `Map`, `nat`, spec functions), and the laws that span several
  functions stand as public proof functions named `law_*`.
  - text and parsing: `text`, `lex`, `order`, `base64`, `fingerprint`
  - storage: `model`, `health`, `mmc`, `nvme`, `report`
  - package mirrors: `sources`, `source_files`, `source_status`,
    `source_plan`, `benchmark`
  - actions and the control plane: `actions`, `catalog`, `control`, `api`,
    `helper_request`, `i18n`
  - board hardware: `hardware`, `overlay_files`, `efi`, `efi_entry`,
    `boot_transaction`, `devices`, `fan`,
    `pinout`, `probe`
- `tests/` runs the library on concrete values.
- `app/` is the `rsetup` command: it reads files, sysfs and commands,
  hands what it read to the library, and carries out or prints what the
  library decides. The float arithmetic of the tool (load, temperatures,
  byte counts with decimals) lives there too.
