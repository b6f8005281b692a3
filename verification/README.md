# grok-eliminator

Audits and removes a local Grok CLI installation: known artifact paths, the
`@vibe-kit/grok-cli` npm package, `GROK_API_KEY`/`XAI_API_KEY` exports in shell
profiles, keys in the persistent environment store, and (on macOS) the
reachability of the `grok` wrapper that the signed cmux application ships.

The library in `src/` is verified with Verus. It decides everything: which
paths are targets and in which order, what a profile becomes, what the reports
say, and, for `remove --apply`, which outside action comes next
(`RemovalRun`). The program in `app/` only reads the machine, runs helper
commands, changes files as told, and prints the report.

- `text`, `lines`: strings as character sequences; how text splits into lines.
- `credentials`, `strip_laws`: export detection and stripping, and what
  stripping guarantees.
- `guard`: the cmux guard and its idempotent installation.
- `paths`: platform path rules, the home directory, path order.
- `targets`, `artifact_laws`: the artifact paths, npm prefixes and profiles;
  every artifact path ends in a Grok name.
- `audit`, `audit_laws`: the read-only audit and the dry run.
- `edits`, `sanitize_laws`: the decisions inside profile edits and the cmux
  mirror; a sanitized profile that is written back exports no key.
- `removal`, `removal_laws`, `run_laws`: `remove --apply` as a state
  machine, and what a whole run reports whatever the outside actions answer.
- `bundle_laws`: no target of the removal lies inside the signed cmux
  application.
- `report`, `error`: reports, their text, and error messages.
