# pico_cover_gb

Cover art for Game Boy, Game Boy Color and Game Boy Advance ROMs on a Pico
flashcart: ROMs are classified by extension, GBA game codes are read from
the ROM header, covers are fetched from the Libretro thumbnail server and
converted into the 128x96 8-bit paletted BMP files that Gameyob and
GBArunner3 show, under `_pico/covers/<gb|gbc|gba>/`.

Layout:

- `src/` is the verified library (Verus): the BMP writer and its read-back
  laws (`bmp`), the conversion pipeline around the `image` and
  `color_quant` crates (`converter`), ROM platforms and game codes
  (`scanner`), drive selection, cover names, paths and the region list
  (`utils`, `plan`), the download URL (`downloader`) and the state of the
  cover window (`gui`).
- `app/` is the program: argument parsing, file-system and network access,
  the concurrent terminal run and the egui window.
- `tests/` exercises the library on concrete inputs.
