# veoluz

A kaleidoscope of light: rays from light sources bounce off mirrors, lenses and absorbing
walls, and the brightness they leave on the canvas becomes an image.

The light tracing itself works on floating-point geometry and lives in `app/`, together with
the command-line renderer and the browser page. The verified library in `src/` holds the
integer core around it:

- `raster`: plotting pixels into brightness buffers, and painting anti-aliased line pixels
  into RGBA images;
- `render`: the brightest pixel, histogram bins, the exposure cut-off bin, RGBA layout;
- `buffers`: adding worker renders into the page's buffer, and the little-endian byte form a
  worker sends it in;
- `symmetry`: which mirrored and rotated copies of the walls the scene's symmetry adds;
- `history`: undo and redo over encoded scene snapshots;
- `scheduler`: render request ids, worker dispatch and stale renders;
- `selection`: how mouse presses and releases change the selection, and the cursor;
- `share`: share links (DEFLATE, then base64) through `miniz_oxide` and `base64`;
- `types`: the exposure curve, render requests and named timers.
