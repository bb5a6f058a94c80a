# cosmic_term configuration library

The settings of a terminal emulator: color schemes, profiles, fonts, and
per-directory appearance rules. The logic is verified with Verus.

- `src/path.rs` — Unix paths as character sequences: trimming, `~`
  expansion, joining, and splitting into components.
- `src/rules.rs` — directory rules, component-wise matching, and the choice
  of the most specific rule for a working directory (lowest id on ties).
- `src/config.rs` — the configuration, the layering of rule over profile
  over global settings, themes, and the listing of schemes and profiles.
- `src/names.rs` — names kept apart by numbering (`name (2)`, ...).
- `src/fonts.rs` — font weights and widths as `cosmic_text` numbers them.
- `src/color.rs`, `src/maps.rs` — colors, and facts about ordered maps.
- `app/` — the parts around the library: the stored (serde) form of the
  settings, the home and working directories, floating-point font metrics,
  and ordering names by the user's collation.
