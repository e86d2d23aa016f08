# mon_gen

The rules of a creature battling game and the generator of its resource code, verified with Verus.

- `src/` is the verified library:
  - battle input, order and execution: `party`, `queue`, `command`, `battle` (commands and the
    battle's state machine), `replay`, `runner` (starting commands and applying their effects);
    the effects of attacks, which depend on the game's generated data and floating point damage,
    are computed by the caller and handed in with `effects_give`;
  - the effects that attacks produce: `effect`, `calculate`, `lingering`, `statmod`, `messages`;
  - monsters and their attacks: `monster`, `attack`, `types`;
  - `build/`: the checks and code generators for the resource definitions (classifiers,
    elements, attacks, species), and the compiler of attack effect expressions.
- `app/` is the program that reads the TOML resources from disk, hands them to the library's
  generators and writes the generated files; it also holds the floating point battle arithmetic.
- `tests/` exercises the library on concrete values.
