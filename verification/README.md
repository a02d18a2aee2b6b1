# renderer

The integer and index logic of a small physically based renderer, verified
with Verus, and the floating-point parts around it.

- `src/` is the verified library:
  - `geometry`: integer points and pixel bounds (`Bounds2`), their area,
    intersection and the points they cover.
  - `integrator`: the division of an image's sample bounds into 16-by-16
    render tiles, with proofs that the tiles partition the bounds.
  - `film`: films and film tiles as row-major pixel grids, and the indexing
    of a tile's pixels.
  - `crop`: the bounding box of an image's non-transparent pixels and the
    cropping of the image to it (through `image::imageops::crop_imm`).
  - `bsdf`: BxDF type flags and the counting of BxDFs by type.
  - `shape`, `sampler`, `config`, `filter`, `color`: triangle meshes, the
    stratified sampler's configuration, the precomputed filter's table layout.
- `app/` holds what computes with floating point: spectra, reconstruction
  filters, scattering functions, camera helpers, film sampling, and the part
  viewer's RON configuration.
- `tests/` exercises the library on concrete values.
