# rhythm_arena

The rules of the Rhythm Arena tournament service, verified with Verus.

`src/` is the library. Each module states its rules as `requires`/`ensures` contracts over
spec functions, and Verus proves the code against them:

- `lifecycle`, `tournament`, `teams`: the stages of a tournament, its creation and updates,
  registrations, teams and chart tags, and the schedule the background worker follows.
- `access`: sign-in, platform permissions and tournament staff roles.
- `rounds`: round visibility, configuration, entering, releasing and ending rounds.
- `results`: result submission and the review state machine.
- `builtins`, `scoring`: the built-in scoring templates, the context a scoring script is
  given (approved results only), the checks on a script's output, competition ranking of
  leaderboards and the snapshots a recomputation stores.
- `charts`, `phira`, `oauth`: the shared chart library, the Phira service client, and the
  data OAuth provider scripts read and answer.
- `communication`, `events`, `validation`, `error`, `text`, `model`, `inputs`, `json`:
  notifications and chat, pushed events, form validation, error answers and text helpers.

`tests/` runs the library on concrete values. `app/` is the program around it: the command
line, the HTTP answers and the requests to the Phira service.
