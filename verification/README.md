# civgame

The rules of a civilisation game, written in Verus: vehicles that are designed cell by cell and
then assembled, crewed, driven, loaded and shot at; wells that are dug down to the water; wild
herds that roam, multiply and come into view; what each faction sees; the distant world beyond the
loaded map; and the text of the game's windows.

Every function in `src/` is executable Rust with a contract that Verus proves. Laws that relate
several functions stand beside them as public proof functions.

* `src/` — the rules. They take and give plain values: snapshots of the world go in, decisions
  come out.
  * vehicles: `parts`, `grid`, `catalog`, `templates`, `tech`, `design`, `validate`, `stats`,
    `footprint`, `assembly`, `provision`, `inventory`, `vehicle`, `health`, `combat`, `turret`,
    `siege`, `freight`, `haul`, `motion`, `drive`, `manual_drive`, `orders`, `occupancy`
  * the world: `terrain`, `vision`, `well`, `wild_herd`, `world_sim`
  * windows: `page` and the panels built on it, the `inspect_*` parts of the inspector, `lobby`
    and `main_menu`
  * foundations: `geometry`, `rings`, `seqs`, `sorting`, `text`, `reading`, `slug`, `tiles`, `rng`
* `tests/` — runs the rules on concrete values.
* `app/` — what surrounds the rules: files, figures in floating point, Bevy entities and egui
  windows. Nothing in it is verified.

Hashed sets and maps come from `ahash` and random numbers from `fastrand`. What is believed of
them, without proof, is written on the small functions in `tiles`, `rng` and `wild_herd` that call
them; `slug` states what `String::push` does.
