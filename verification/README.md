# rex_fm

The verified core of a keyboard-driven terminal file manager, written in
Verus. The functions under `src/` carry contracts that Verus proves, except a
few small trusted wrappers around outside calls (`String::push`,
`str::to_lowercase`, `String::from_utf8_lossy`, `Path::strip_prefix`, the
`nucleo` matcher and `serde_json`), whose contracts are assumed and say
what those calls do.

- `text`, `path`, `order`: strings, path pieces (parent, file name,
  extension, components), and orderings with a sort.
- `navigator`: a directory pane (parent first, directories first, names in
  lowercase order) and its cursor.
- `app`: the whole state, the preview window and its scroll rule, timed
  status messages.
- `keys`: what every key does in every mode, as a new state and an effect
  for the caller; `outcomes`: what the state makes of the effects' results.
- `search`, `fuzzy`: the `fd`/`find` command lines, the candidates read from
  their output, ranking by name with `nucleo`, filtering and ordering of hits.
- `trash`: where deleted and pasted items go when their name is taken.
- `config`, `updates`, `icons`, `messages`, `view`: the configuration, the
  update notice, icons, status texts and what the screen shows.

`app/` is the terminal program around it: it reads directories and files,
runs searches and programs, and draws with `ratatui`.
