# yuuka

The server side of a personal assistant: task lists with subtasks, tags and
routines, a day timeline of plan blocks and records, webhook endpoints that
turn incoming posts into notifications, the memory index of the assistant,
the assistant's built-in tools, and the web layer around them (sessions,
CSRF, scoping to a user's bot, static files).

The decisions of each part are a library verified with Verus:

- `src/todo` — task records, the parent/subtask forest and its computed
  progress, tag normalisation and editing, grouping by tag, the argument
  checks and answers of the task tools, and the column updates they lead to.
- `src/timeline` — plan block checks and updates, the task a `task_done`
  record completes, media names and types.
- `src/webhook` — endpoint patches, payload truncation, hook URLs, request
  checks, the per-token rate limit and the receive outcome.
- `src/synapse` — which memory ids live in which scope, the hashed n-gram
  slot counts of the embedder, and the time distances used in scoring.
- `src/web` — cookies, bearer tokens, the CSRF rule, scopes, static file
  policy and the response envelope.
- `src/supervisor` — restart decisions, the jittered exponential restart
  back-off (its configuration, and the bounds of each draw: from the first
  delay, doubling up to the maximum; which delay within them comes is
  random), start-up secret checks and the desktop download metadata.
- `src/tools` — which tool declaration wins when names collide.
- `src/chat.rs`, `src/frames.rs` — the chat socket's frames and steps.

`app/` is the program around it: the HTTP routes over SQLite, the tool
executions, the supervisor loop and the floating-point parts of the memory
index. `tests/` exercises the library.

Parts of the service that need components not included here are absent
from `app/`: the desktop chat socket (`/ws/chat`, which needs the chat
engine), the Discord gateway and its per-bot tenants, session and desktop
token stores (the stand-in knows no user), key rotation (it needs the
credential cipher) and the household ledger behind expense records. The
library's chat frames, socket steps and tenant back-off decisions are
verified all the same.

