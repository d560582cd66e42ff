# garta

The model of a map tile viewer, written in Verus and proved against its
contracts: tile requests and their queue, the tile cache with its lookups,
approximations from other zoom levels, fetch outcomes and flushing, the atlas
of layers and maps, settings paths, file names for stored elements, and a GPX
reader that reads a document from the events of an XML parser.

Layout:

- `src/` is the verified library. `foreign.rs` holds the calls into `std` and
  into the outside crates (`chrono`, `rand`, `num_cpus`, `image`, `url`,
  `regex`, `xml-rs`) whose contracts are taken on trust; `laws.rs` holds properties that
  relate several operations.
- `tests/` runs the library on concrete values.
- `app/` is the program around it: threads, files, the network, JSON, and the
  computations in floating point numbers (colours, vectors, geographic
  locations and projections, unit conversions).
  It has no graphical interface: the map window, its drawing and its input
  handling need GTK and cairo, which this build does not include. Map tokens
  and a saved map view are not loaded either.
