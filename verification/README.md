# sessionr sidebar, verified

The logic of a session-first terminal sidebar, written in Verus:

- `model` — sessions (a goal, a last-activity stamp, a settled stamp, a
  branch and worktree space, the rolled-up agent state) and sidebar settings.
- `entries` — the list's rows: active sessions by recency, then the settled
  archive behind its header, collapsed to a preview with "Show N more".
  The laws of the order (determined, every session once, recency order,
  the collapse) are proof functions here.
- `age` — relative ages (`now`, `23m`, `3h`, `7d`, `2w`, `4mo`).
- `layout`, `scroll`, `drop` — rectangles of the list, its body, the card,
  the toggle, scrolling, row hit areas and drag-and-drop slots.
- `agents`, `groups`, `rows` — agent panel entries, worktree groups and
  what each drawn row shows.
- `session` — the `session` command line.

`app/` draws the sidebar with ratatui and carries out `session` commands.
