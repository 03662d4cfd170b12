# mcsh

A Linux shell where every command starts with `/`, Minecraft style. Text
without a `/` is chat.

The crate is in two parts:

- `src/` is the library, verified with Verus. It decides what a typed line
  asks for (`commands`), what each built-in command does and prints
  (`builtins`), how pipelines are split and wired (`pipeline`), the prompt and
  its biomes (`prompt`), tab completion (`completer`), highlighting
  (`highlighter`), autosuggestions (`hinter`), the order and look of directory
  listings (`listing`), the fixed screens (`screens`) and what the session
  loop does with each line read (`session`). Terminal colours come
  from the `colored` crate (`style`), tilde expansion from `shellexpand`, and
  character-level text operations are in `text`.
- `app/` is the program around it: the rustyline editor loop, the
  environment, the file system and child processes. It carries out the plans
  the library makes and prints the lines it renders.

The laws the library promises are public proof functions named `law_*`.
