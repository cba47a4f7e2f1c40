# eldenring-practice-tool (verified core)

The decision logic of an Elden Ring practice tool, written in Verus and
proved against its contracts:

- `memedit`, `flags`, `pointers`, `target`, `params`: pointer chains, bit
  flags and byte patches (which bytes to write for a state), the per-version
  address tables, the target-info detour bytes, and the table of parameter
  sets. Memory itself is read and written by the caller.
- `version`, `update`, `hud`, `launch`: game-version detection from the
  executable's file version, the update check and its message, the overlay's
  state machine, labels and on-screen log, the launcher's choices.
- `config`, `item_spawn`, `matching`, `items`, `widgets`, `bitfields`:
  configuration values, the item spawner, fuzzy filtering of item and grace
  lists, the item list conversion, the small widgets and the accessors of
  parameter bitfields.
- `paramdef`: the parameter-layout code generator (PARAMDEF XML to Rust).
- `keys`: hotkey names and when a hotkey fires.
- `hexdump`: the hex dump of a block of memory.
- `paths`: where the build tasks read and write their files.
- `numfmt`: integer formatting used by all of the above.

`app/` is a command-line front end: it reads configuration files, checks for
updates over HTTP, and runs the item-list and parameter-layout generators on
files. `tests/` exercises the library on concrete values.

Three collections of the original are held differently here, because they
are keyed by text, and Verus proves nothing of a `HashSet` or `BTreeMap`
whose keys are `String`s: the snake-case names already seen while making
field names unique are a `Vec<String>` searched in order, and the parameter
layouts (`ParamLayouts`) and the parameter sets (`Params`) are `Vec`s kept
sorted by key, with no key twice, which is what the ordered maps gave.
