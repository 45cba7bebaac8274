# jiji_forge

The forge side of Jiji, a desktop workbench for Jujutsu repositories, as a
verified library: turning a stack of changes into GitHub pull requests,
landing it, shipping it straight to trunk, and the auto-land job that
repeats landing rounds until the stack is in.

Everything that decides something stands in `src/` and is proved with
Verus: stack segmentation, PR text reconciliation with fingerprints, the
stack comment, the submit, land and ship plans and their execution, the
auto-land decisions, token resolution and the parsing of GitHub's answers.
Execution talks to jj and GitHub through host traits (`SubmitVcs`,
`SubmitForge`, `LandVcs`, `LandForge`, `ShipVcs`, `AutoLandPrs`,
`CiForge`, `TokenStore`); each request names its answers, so the contracts
say which request was made with which arguments and what the library makes
of whatever came back.

- `src/` — the library; `src/laws.rs` states the laws that relate its
  functions (what a read gives back of a write, what a re-submit plans).
- `tests/` — tests on concrete values.
- `app/` — the host around the library: the GitHub REST client, the jj
  and keychain hosts, the auto-land loop and its records.
