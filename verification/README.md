# epiqs

A small Lisp-like language whose programs are built from tagged pairs
("piqs"), written as a Verus library: every function states what it does in a
contract, and Verus proves it.

- `src/util.rs`, `src/text.rs`: classes of bytes; numbers in decimal and text
  from bytes.
- `src/vm/`: the machine: an arena of nodes (`NodeArena`), the frames of
  bindings from names to nodes (`SymbolTable`), the piqs (`Epiq`), the
  tokens (`Tokn`), and the tree of piqs (`AbstractSyntaxTree`).
- `src/lexer/`: a state machine driven by a list of scanners, each of which
  looks at the state and the current byte.
- `src/parser/`: a recursive descent over the tokens that allocates the nodes
  of a program; `grammar.rs` states what each construct builds.
- `src/walker/`: the evaluator of a parsed program, with its primitive
  functions; `semantics.rs` states what walking and evaluating do.  Every walk
  is given a fuel that bounds how deep it nests.
- `src/printer/`: writes nodes back as text, and runs the whole pipeline
  (read, parse, walk, print).
- `src/evaluator.rs`: an evaluator over a tree of tagged piqs, whose parts may
  stand anywhere in the tree; every walk is given a fuel, and a part that is
  not in the tree stops it.
- `app/main.rs`: the command line: evaluates the program in a file.
