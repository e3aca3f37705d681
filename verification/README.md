# nlsh

A shell that also understands plain English: lines that are shell commands
go to zsh as typed; requests in English go to a local model (Apple
Intelligence or Ollama), whose answer is reduced to one command, checked for
danger and confirmed before it runs.

- `src/` — the library, verified with Verus: line classification
  (`classify`), the keystroke interceptor (`intercept`), the cleaning of model
  answers (`parser`), the danger check (`safety`), the configuration file
  (`config`), the model backends (`llm`, `ollama`), the prompt (`prompt`), the
  confirmation (`confirm`) and the setup flow (`setup`), over the text
  operations of `text`.
- `app/` — the program around it: the pseudoterminal, raw terminal modes,
  signals, subprocesses, HTTP and the setup screens.
- `tests/` — tests of the library.
