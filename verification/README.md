# prompt_player

The decision logic of Prompt Player, a presenter's tool that types prepared
prompts into whatever app has focus when a trigger word and a commit char
(`>` by default) are typed, a hotkey is pressed, or a prompt is picked from a
palette — with each function's behaviour stated as a contract and proved with
Verus.

## Layout

- `src/` — the verified library. Every function carries `requires`/`ensures`;
  the public `lemma_*` proof functions state properties that span functions
  (what the hook never swallows, that a paste always restores the clipboard,
  that a parked multi-step playback answers the kill switch, that keep-awake
  sessions expire exactly once, …).
  - `matcher`, `hook`, `keys`, `mac_tap` — keystroke ring, trigger matching and
    the keyboard-hook verdict for each key event.
  - `fire`, `sequence`, `inject`, `filters` — what a fire needs, how it is
    delivered, multi-step playback, `SendInput` batches and the clipboard
    paste protocol, the body filter chain.
  - `picker`, `search`, `capture` — the command palette's ranking, fuzzy search
    and the window focus is given back to.
  - `config`, `commands`, `shortcuts`, `hotkey`, `tray_menu`, `power`,
    `accessibility`, `platform`, `error`, `guest`, `prompt`, `text` — settings,
    command-layer answers, global shortcuts, the tray menu, keep-awake,
    focused-field classification, window policy, errors, the guest helper's
    authentication and string helpers.
- `tests/` — ordinary Rust tests against the library.
- `app/` — a small host: the YAML config file on disk, the guest helper's TCP
  service and first-run example installation.

Trusted items (calls into `regex`, `pulldown-cmark`, `nucleo-matcher`, `url`,
`subtle`, `getrandom` and a few std functions) are marked
`#[verifier::external_body]`; their doc comments say what is assumed of them.
