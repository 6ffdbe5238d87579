# three_rs

A software 3D rasterizer that draws into a terminal through `ratatui`.

- `src/` is the verified library: the Wavefront OBJ reader (`obj_loader`,
  on top of the splitting and number reading of `text`), the mesh topology
  (`mesh`), the colour and depth buffers (`raster`), the texel grid and the
  decoding of image files through the `image` crate (`texture`), the
  character ramp of the text display (`widget`) and the `Matrix` interface.
  Every function there with a body carries a contract that Verus proves;
  the `Matrix` trait only declares its methods, and its one implementation,
  for floating-point matrices, is in `app/`.
- `app/` holds everything that computes in floating point (vectors,
  matrices, camera, lighting, triangle and line drawing, the scene), the
  file reading, and the `ratatui` widget. It uses the library's buffers,
  textures, meshes and OBJ reader.
- `tests/` runs the library on concrete values.
