# cdda_map_editor

The data model and rules of a map editor for Cataclysm: Dark Days Ahead mapgen
files, written in Verus and proved against its contracts.

- `src/` is the verified library:
  - `common`, `random`, `table`, `text`, `coordinates`: weighted random choice,
    association lists that stand for json objects, the string splitting the
    editor relies on, and the `x;y` text of coordinates.
  - `palettes`, `map`, `resolve`, `loader`, `region_settings`: palettes and
    parameters, map objects and their tiles, what a character of a map stands
    for, loading a map object from a mapgen file, and drawing from regions.
  - `tileset`, `sprites`, `graphics`, `textures`: legacy tilesets (where each
    sprite is cut from, the ascii fallback sprites, the sprites of each tile id),
    the multitile neighbour rules, and what a tile shows.
  - `drawing`: what a tile of a map is drawn as, from the ids of its character and
    of its neighbours, the regions, the sprites of the tileset and the fill terrain.
  - `events`, `state`, `settings`: the decisions taken when tiles are placed or
    deleted, the log, projects and their automatic saves, and the settings.
- `tests/` runs the library on concrete values.
- `app/` is a headless front end: it reads the files (settings, tileset images
  and json, palettes, region settings, mapgen files), hands their contents to the
  library and writes the editor's files.
