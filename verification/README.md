# codedesign

The core of a terminal design agent, written in Verus: the session state
machine and briefs, the DesignPlan → Figma Plugin JS compiler, the design
system model (tokens, components, constraints, prompt bindings), the
anti-slop lint and the five-dimension critique rubric, role prompt assembly
and skills, the design tools (`ds.query`, `ds.validate`, `prd_parse`, todo
lists, Figma deeplinks), the Figma MCP client's message handling, and the
decisions of the command-line front end.

- `src/` — the verified library. Every function carries a contract over
  spec functions and views; the laws of the library are public proof
  functions next to the code they speak of.
- `tests/` — tests of the library on concrete values.
- `app/` — the `codedesign` program: files, environment, terminal, HTTP and
  the MCP child process, plus serde shapes of the library's documents.
