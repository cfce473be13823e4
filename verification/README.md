# split_bridge

Split is a launcher for Windows games on Linux (Wine or Proton). This crate is its
verified core, written in Verus: the launcher's logic is written as functions of plain
values with proved contracts, and set-up steps that alternate with outside work (the
icon search, the prefix set-up) as step machines. The program around it
(`app/main.rs`) reads files, runs processes and shows dialogs, and hands what it gets
to the library.

- `src/text.rs`: the character-level model of the text routines used (`lines`, `trim`,
  `split_once`, `split_whitespace`, `replace`, `str::parse` for unsigned integers,
  decimal notation) and their executable versions.
- `src/hw.rs`: hardware detection from the system files, and the performance profile.
- `src/cache.rs`: the hardware cache text, reading it back, and its freshness.
- `src/profile.rs`: per-game profiles (MangoHud, thermal guard, OpenGL, Wine, menu entry,
  GameMode, frame-rate cap, unlocked mode), the settings dialog, where a launch's settings
  come from.
- `src/launch.rs`: the command line, game tag and prefix, Steam/Proton/Wine lookup,
  crack detection, and the environment and command of a launch.
- `src/thermal.rs`: the thermal guard's decisions.
- `src/desktop.rs`: `.exe` handler registration, menu entries, the icon search.
- `src/prefix.rs`: setting up a game's Wine prefix, as a step machine.

Proved laws include: the hardware cache and the game profiles read back what was
saved (the five-setting profile text too); a fresh cache is used as is; lines that do
not name a setting, and the interleaving of lines for different settings, do not change
that setting; the profile rises (never falls) with more memory;
menu entry names hold no path separator; the icon search and the prefix set-up always end.

Not provided: the game detection by DirectX version (`is_heavy`) with its Vulkan bridge,
dynamic ZRAM sizing, the central save store with symlinks and backups, and "rubber pipe"
scaling. The launcher's own description names them, but the launcher itself never
implemented them, so this crate has nothing of them to state.
