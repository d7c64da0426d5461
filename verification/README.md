# io_unity

A library that reads Unity asset files: UnityFS bundles and the serialized files
inside them, the objects of those files through their type trees, and type tree
dumps kept in a zstd-compressed tar archive for files stored without type trees.
The library's functions are verified with Verus against contracts stated over a
mathematical model of the bytes they read. The calls into other code (LZ4 and zstd
decompression, tar listing, regular expressions, lossy UTF-8 decoding and `Arc`
handles) go through a few small wrappers whose contracts are assumed, not proved;
each names the function it calls.

## Layout

- `src/` the verified library
  - `binary.rs`, `text.rs`: byte and string reading, decimal numbers, path splitting
  - `unityfs.rs`: bundle headers, block tables, block decompression (LZ4), file
    reads and a seekable reader over one file of a bundle
  - `serialized_file/`: serialized file headers, format revisions 1, 3, 5, 6, 11, 20
    and 22, object tables and external references
  - `type_tree/`: type tree nodes, reading an object's layout, casting fields to
    values, a field's value as a plain value (`attr.rs`), layout listing
    (`display.rs`), type tree dumps (`type_tree_json.rs`), and what a fixed-size
    type tree says of the bytes read (`layout_laws.rs`)
  - `containers.rs`: the asset names that asset bundles and resource managers list
  - `unity_asset_view.rs`: many bundles and serialized files opened together,
    with their file names, asset names and objects
  - `resource.rs`: where a resource file named by an object is looked for
  - `classes.rs`, `material.rs`, `until/`: small records (object references, scripts, materials, texture
    formats, Unity versions)
- `tests/`: tests run against the compiled library
- `app/`: file system, JSON, console and float conversions around the library
