# clarity_natives

The type checks of the functions on sequences of the Clarity language (`map`, `filter`, `fold`,
`concat`, `append`, `as-max-len?`, `len`, `element-at?`, `index-of?`, `slice?`, `replace-at?`) and
of those that convert values (`to-consensus-buff?`, `from-consensus-buff?`), written and proved in
Verus.

A check is one part of the analysis of a contract. It types its arguments, charges for its work and
looks functions up by asking the rest of the analysis, which it knows as the trait `Analysis`. The
trait promises nothing of its answers. A question that may change the analysis uses it up and gives
back what it has become. One that only looks something up, or only computes, leaves it as it is. A
`TypeChecker` holds the analysis and keeps a ghost record of every question, its answer and the
analysis before it. The contract of each check says, over that record,

- which questions were asked, in which order, with which arguments;
- that every answer in the record is one that the analysis gave, and leads from the analysis before
  it to the one after it, so that nothing changed it past the record;
- what the check returns for those answers: the type, or the error.

For an analysis whose methods have contracts of their own, the result of a check follows from them,
and so does what the check leaves of the analysis.

## Layout

- `src/representations.rs`, `src/signatures.rs`, `src/errors.rs`: expressions, types, errors.
- `src/analysis.rs`, `src/record.rs`, `src/checker.rs`: what is asked, how it is recorded, and the
  checker that asks it.
- `src/run.rs`, `src/rules.rs`: what each check asks and what it comes to, for any answers.
- `src/arguments.rs`, `src/sequences.rs`, `src/conversions.rs`: the checks themselves.
- `src/laws.rs`, `src/typing.rs`, `src/applying.rs`, `src/charging.rs`, `src/determinism.rs`: what
  holds of all checks, of their types, of the functions they apply, of what they charge, and of how
  the answers fix the outcome.
- `src/kept.rs`, `src/endings.rs`: the lemmas that these rest on.
- `tests/`: the checks on concrete contracts.
- `app/`: the join to the Clarity VM. It needs the VM's crates `clarity_types` and
  `stacks_common`. `clarity_types` is not published as a crate that the library could depend on, so
  the calls into it (least supertypes, the forming of lists and options, sizes) are made here, as
  answers to the library's questions.
