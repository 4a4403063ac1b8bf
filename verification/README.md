# gpui_bounded

Verified building blocks of a GPU UI toolkit's image and text pipelines, written in Verus.

`src/` is the verified library:

- `position`, `charge`, `checked`, `error`, `geometry` — composite stream positions with
  adjacent-object gap witnesses, exact retained-payload charges and checked arithmetic.
- `session`, `inputs`, `advance`, `fragments`, `maps`, `admission` — the bounded streaming text-layout
  session: ordered admission checks, atomic admission of shaped text segments, oversize atoms
  and inline objects with their exact charges, line finalization and end of source,
  continuation advance, caret maps built from shaped glyph boundaries, and fragment caret and
  hit-test ownership. Shaping itself belongs to the platform text system, which hands the
  admissions its counts, boundary points and placement sums.
- `image_source`, `image_prepare`, `raster` — render-request identities, preparation limits and
  failures, and raster decoding and upload preparation through the `image` crate.
- `resources`, `source_backed` — standalone GPU image resources and the source-backed image
  store with its paint and preload budgets.
- `atlas`, `atlas_state`, `atlas_diagnostics` — atlas textures with CPU mirrors, tile
  allocation through `etagere`, live-key accounting and diagnostics.
- `placement`, `native_operation`, `publication` — native window placement geometry,
  hidden-window lifecycle and first publication.

Pixel values are carried as bit patterns; every decision that depends on one receives its sign
class or an ordering, computed outside the library.

`app/` holds what the library leaves out: owned image sources, blocking and background image
preparation with file reads, lock-guarded shared stores, floating-point pixel classification and
scaling, and a thread-local test observer.
