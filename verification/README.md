# html_lang

An interpreter for a small stack language whose programs are HTML fragments: the children
of the first `main` element are run in order, and each element is an instruction (`data`
and `s` push values, `dd`, `sub`, `ul`, `div` compute, `output` prints the top value, `ol`
gathers values into an array, `i` runs its children on `true`, `a` jumps or calls, `dfn`
holds the body of a call, `var` and `cite` store and read variables).

Layout:

- `src/` is the library, verified with Verus.
  - `value.rs`: the values, their printed form and their equality.
  - `text.rs`: decimal printing and parsing of integers, string helpers.
  - `vars.rs`: the variables of a program.
  - `ops.rs`: the instructions that work on the stack alone.
  - `html.rs`: the parsed HTML document that the interpreter reads, and the calls into
    `scraper` and `ego-tree` that read it.
  - `semantics.rs`: what running a program means, as spec functions over a model of the
    document.
  - `interp.rs`: the interpreter, proved to run as `semantics.rs` says.
  - `program.rs`: the answer to a request whose body is a program.
  - `laws.rs`: properties of runs that hold for every program.
- `tests/`: tests of the library.
- `app/`: the web server (actix-web) around the library.

Runs are given fuel: each step takes one unit, and a run that uses it all stops with
`OutOfFuel`; the server gives `u64::MAX`.

Some instructions have no meaning at some points (`div` by zero, `var` on an empty stack,
`dfn` without children, `a` whose selector matches nothing, an `ol` that shrinks the stack).
`exec_html_instructions` and `html_exec_loop` leave runs that reach such a point out by
their preconditions; `run_node`, `run_main_loop` and `run_program` take every input and
stop such a run with a `Fault`, on which the server fails the request.
