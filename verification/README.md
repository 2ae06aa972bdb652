# armature-features

Feature flags and A/B testing for the Armature framework, verified with Verus.

- **Feature flags**: toggle features at runtime
- **Targeting rules**: activate features for users that meet all conditions of a
  rule (`In`, `NotIn`, `Contains`, `StartsWith`, `EndsWith`, `Matches`)
- **Gradual rollout**: deterministic, percentage-based
- **A/B testing**: multivariate flags that distribute users across variations
- **LaunchDarkly**: evaluation through the same contexts and variations

## Layout

- `src/` is the verified library. Each type has a model (`flag@`, `context@`) and
  each function a contract over the models. `src/laws/` states and proves what
  holds across functions.
- `app/` is what touches the outside world: serialization, the process-wide
  pattern cache, the LaunchDarkly client.
- `tests/` runs the library with the real outside crates.

## What is believed, not proved

The contracts of the outside functions that the library calls: SHA-256 (`sha2`),
regular expressions (`regex`), copying a JSON value (`serde_json`), the
LaunchDarkly context builder, and a few string functions of the standard library.
Each is marked in its doc comment.

## Numbers

A number variation holds the IEEE 754 bit pattern of a double: write
`Variation::number(4.2f64.to_bits())` and read `f64::from_bits(..)`.
