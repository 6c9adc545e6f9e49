# framework

A small framework for GPU compute with Vulkan, and the exercise programs built
on it, split in two:

- `src/` is the verified library (Verus). It holds the decisions and the data
  handling that surround the GPU calls:
  - `memory`: memory types and requirements, and the choice of the first
    memory type that a resource accepts and that has the requested properties;
  - `queue`: the choice of the first physical device that supports at least
    the requested API version and has a queue family that supports compute
    and transfer work, and of that family;
  - `spirv`: decoding the bytes of a compiled shader into SPIR-V words, in
    either byte order (through `ash::util::read_spv`);
  - `pointcloud`: the text format of point cloud files, down to where each
    number field stands;
  - `buffer`: byte sizes and memory properties of shared buffers;
  - `dispatch`: the number of work groups a dispatch needs;
  - `pixels`: turning point cloud shader output into RGBA pixels;
  - `version`: packing and reading Vulkan API version numbers.
- `app/` is the host side, in plain Rust: the Vulkan context, pipelines,
  buffers and allocator (`app/gpu`), file reading, number parsing, and the
  exercise programs (`app/tasks`), run as `app <task> [arguments]`. The
  HelloGPU and UniformBuffer exercises are not among them: they call
  `setup_compute_pipeline` and a `setup_compute_context` without a Vulkan
  entry, neither of which the framework has.
- `tests/` runs the library on concrete values.
