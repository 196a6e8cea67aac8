# jazzy_parser

The parser of the jazzy language, verified with Verus. It reads the tokens
that the scanner hands it and builds a syntax tree whose nodes live in
`slotmap` arenas, one arena per kind of node, reporting what it cannot read.

```text
file          -> (statement)* [expression] ;
repl_commands -> (repl_command)* ;
repl_command  -> statement | expression ;
statement     -> var_decl | var_assmt ;
var_decl      -> "let" ["mut"] ID ["(" type_hint ")"] ":=" expression ";" ;
var_assmt     -> ID ":=" expression ";" ;
expression    -> equality ;
equality      -> comparison ( ( "!=" | "==" ) comparison )* ;
comparison    -> term ( ( ">" | ">=" | "<" | "<=" ) term )* ;
term          -> factor ( ( "-" | "+" ) factor )* ;
factor        -> boolean ( ( "/" | "*" | "%" ) boolean )* ;
boolean       -> unary ( ( "and" | "or" ) unary )* ;
unary         -> ( "!" | "-" ) unary | primary ;
primary       -> ID | NUM | STR | "true" | "false" | "(" expression ")" ;
```

## Layout

- `src/grammar.rs` states, as spec functions, what each rule reads: the tree,
  where reading stops, the reports made on the way and how many nodes it
  makes. `src/parser.rs` is the recursive-descent parser, proved to build that
  tree out of exactly that many new nodes, to stop there and to make those
  reports; `src/denote.rs` says when nodes of the tree spell out a parsed tree,
  and `src/precedence.rs` proves what the levels of the grammar mean for the
  trees it builds.
- `src/checked.rs` tests, on tokens alone, what parsing them requires: that
  reading never goes past the last token and that REPL input is read to its
  end.
- `src/ast.rs` and `src/nodes.rs` hold the tree and its nodes; `src/outside.rs`
  holds the calls into `slotmap` and `std::cell` with the contracts the rest
  relies on.
- `src/display.rs` and `src/outline.rs` print nodes as lines, outlines and code;
  `src/printed.rs` proves that what the parser builds prints as the parsed tree.
- `src/traversal.rs` walks a tree one step at a time and proves the walk
  depth first; `app/lib.rs` runs the callbacks of a traversal between the steps.
- `src/literal.rs` and `src/text.rs` read and write integer literals.
