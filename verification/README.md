# xtera

A small template language, verified with Verus: `{{ expr }}` interpolation
with pipes (`{{ name | upper }}`), `@if`/`@else`, `@for (x of items; track x)`,
`@switch`/`@case`/`@default`, `@match (v) { 'a' => {...}, _ => {...} }` and
`@include('name')`.

## Layout

- `src/` — the verified library.
  - `text`, `span`, `op`, `token`, `lexer`, `parser`, `ast`, `template`:
    reading template source into a syntax tree. The lexer's steps are spec
    functions (`text_step`, `expr_step`, `token_at`) that the executable
    lexer is proved to compute. Spans are byte ranges of the source: the
    lexer keeps the byte position of each character (`text::bpos`, over
    vstd's UTF-8 encoding), and a text node holds exactly the source bytes
    its span covers.
  - `tree`, `grammar`: mathematical models of syntax trees, and the
    template and expression grammar as a spec function (`tgram`, `gram`)
    over them. Each parser function is proved to read exactly what its
    grammar rule reads, so `parse` gives the tree that `template_model`
    describes, and fails exactly where the source does not follow it.
  - `value`, `error`, `display`: runtime values, evaluation errors and how
    values are shown.
  - `scope`: variables, pipe and function names, registered templates.
  - `eval`, `render`: the meaning of expressions and templates as spec
    functions (`expr_value`, `node_output`, ...) and the `eval`/`render`
    methods, each proved to compute exactly its spec function.
  - `host`: the requests the evaluator makes of its host and the replies it
    reads.
  - `laws`: properties proved of every input: short-circuit evaluation,
    symmetric equality, plain text rendering as itself, and the replay
    property of the host conversation.
- `app/` — the host: user pipes and functions (`Pipe`, `Func`), floating-point
  arithmetic and formatting, and serde support for templates.
- `tests/` — tests of the library, run against the compiled crate.

## The host conversation

Floating-point arithmetic, pipes and functions are not computed by the
library. Rendering takes the list of replies given so far and reads them in
order; when it needs one more it stops with `Stop::Ask(request)`. The host
answers, appends the reply and renders again. `laws::law_template_replay`
proves that this converges to a well-defined outcome: a run reads replies in
order, asks only after reading all of them, and once it finishes without
asking, further replies change nothing.
