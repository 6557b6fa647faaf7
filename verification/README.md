# zellij-pick-vim-target

A floating Zellij plugin that fuzzy-picks a file path out of the scrollback of
the current pane, and opens it in the editor at its line or copies it to the
clipboard as a Vim target:

```
src/util/lib.ts:450:12   ->   +call cursor(450,12) src/util/lib.ts
/etc/hosts:21            ->   +21 /etc/hosts
```

The logic is a library whose behaviour is stated in contracts and proved with
Verus; the plugin around it only talks to Zellij.

- `src/target.rs`, `src/decimal.rs`: tokens of the form `path[:line[:col]]`
- `src/scrollback.rs`: the targets of a scrollback, the most recent first
- `src/fuzzy.rs`: the filter
- `src/key.rs`, `src/pane.rs`: keys and panes
- `src/state.rs`: what the picker knows, and what it does on each event
- `src/request.rs`: the permissions it requests and the events it subscribes to
- `src/text.rs`, `src/render.rs`: what it shows, as `zellij_tile` texts
- `src/chars.rs`: characters and strings
- `src/laws/`: what holds of all of this together
- `app/main.rs`: the plugin
- `tests/`: examples

What is taken on trust, because it lies outside: `Text` of `zellij_tile`, three
character and case tables of the standard library, and `push` and `pop` of
`String`. Each has a doc comment that says what is claimed of it.
