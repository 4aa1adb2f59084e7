# beadwall

A bead-plate wall that a community votes on, week by week: 27 x 12 plates
of 30 x 30 beads in ten approved colors.  Members upload plate designs
(24-bit BMP or PNG, one plate wide), vote on designs and on the plate to
replace next; at the end of each week the most voted design goes onto the
target plate and the most voted plate becomes the next target.  The whole
history is an append-only event log and every view of the wall is a replay
of it.

Layout:

- `src/` — the library, verified with Verus: the palette and color
  quantization (`palette`), the wall and its drawing (`wall`), BMP reading
  (`bmp`), events and the log (`events`, `log`), vote tallies (`voting`),
  ending a week (`week`), uploads (`upload`), requests (`actions`), what the
  page shows (`views`), calls into other crates (`codec`) and properties
  across operations (`laws`).
- `app/` — the web server (actix-web): routes, the JSON-lines event file,
  the image cache and the page.
- `tests/` — tests of the library.
