# raytracker

A multithreaded path tracer whose integer and text logic is verified with
Verus.

- `src/` is the verified library: command-line parsing (`cli`), scene
  selection by name (`scene`), the per-scanline generator seeding and
  progress cadence of the render loop (`camera`), the index skeleton of the
  bounding volume hierarchy (`bvh`), and the string helpers they share
  (`text`).
- `app/` is the program around it: vector maths, intersection, materials,
  the camera, the scene layouts and the parallel render loop, all of which
  compute in floating point, plus `main` and PNG output.
- `tests/` exercises the library.

```
raytracker --scene final --width 1200 --samples 500 --out render.png
```
