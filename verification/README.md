# mmc

Verified parts of a compiler for MMC, a small language whose programs are written as Lisp values and
which is compiled to x86.

* `src/parser` reads Lisp values as MMC expressions, items, types, propositions, calls and formulas.
  It works one level at a time: subexpressions stay Lisp values. Every function is proved to compute
  the corresponding function of the grammar, with the place and the text of each complaint.
* `src/x86` has the instructions before and after register allocation. It emits code with virtual
  registers, lists what each instruction reads and writes for the register allocator, and computes
  how long the encoding of each instruction is.
* `src/parser/laws.rs` and `src/x86/laws.rs` hold what is proved of each half as a whole. Among other
  things: an iteration over the items of a program goes through all of them in order, each variable of a
  formula has a place of its own, and a scaled address comes to the sum that it stands for.
* `app` turns the registers and operands into those of the register allocator, and prints
  complaints.

Two outside crates are called from the library. `num` narrows large numbers and tests numbers for
zero. `regalloc2` makes registers and operands. What is taken for granted of their functions, and of
the standard library's formatter, stands beside each call.
