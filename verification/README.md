# rvr

A verified library for a RISC-V recompiler: it reads ELF images, decodes
RISC-V instructions (standard and compressed), builds a control-flow graph
with constant propagation of register values, and emits C or ARM64
assembly for the lifted code.

- `src/` is the library, verified with Verus: every public function states
  what it returns or how it changes its arguments.
- `tests/` exercises the library on concrete values.
- `app/` holds the parts that do I/O (reading debug information through an
  external tool) and the error type with its messages.
