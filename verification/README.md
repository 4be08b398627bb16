# plutus

Fixed-layout data models shared between Rust, C and Python.

A model is a Rust struct declaration whose members carry attributes (`str`
with a `validator`, `int` with `min` and `max`, `bigint`, `flag`, `ipv4`); byte
arrays, nested models and optional models need none. From it the project derives a C-layout struct, a Python class,
`.pyi` stubs, pydantic models and C headers.

- `src/` is the verified library: the attribute and member parser, the text
  generators (C header, `.pyi`, pydantic), the plans of the generated code
  (which fields, conversions, defaults, `dict` entries and accessors each
  member gets), the C layout computation, the value
  codecs (genes, hex, IPv4, fixed-width strings, flags) and the batching of
  fixed-size records. Every public function states its result in its contract;
  the laws that relate functions (round trips, read-after-write, layout
  properties) are public proof functions.
- `app/` is the program around it: it reads the model declarations with
  `syn`, writes each model's runtime code out with `quote` from the library's
  plans (pyo3 classes, C structs, conversions, the Python module), and writes
  the package's stubs, pydantic models and C header.
- `tests/` runs the library on concrete values.
