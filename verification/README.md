# kernc_sema

Semantic checking of Kern expressions, written in Verus and verified.

The library models the compiler's semantic context as plain data (a type
registry, definitions, scopes and a diagnostic list) and proves what the
expression checker and the compile-time evaluator do on it.

## Layout

- `types`, `context`, `ast`, `value`: the data model: interned types, the
  definitions and scopes of a program, expressions, and constant values.
- `checker`, `lookup`, `traits`, `subst`, `coercion`, `coerce`, `ptr_casts`,
  `typeops`: the type checker's state, name lookup, trait implementations,
  substitution, unification and coercions.
- `infer`, `signature`, `call`, `cast`, `access`, `inline_asm`, `atomic`,
  `simd`, `bit_intrinsics`, `intrinsic`: the checks of calls (signature
  deduction, generic inference, argument coercion), casts, identifiers and
  accesses, and the compiler intrinsics.
- `eval_state`, `eval_spec`, `eval`, `arith`: constant evaluation; `eval_spec`
  states what evaluation computes as spec functions.
- `laws`: properties of the library stated over several functions.

Tests are under `tests/`.
