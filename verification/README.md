# leanlayercli

The decision logic of a terminal chat agent, written and proved in Verus, and the terminal program
around it.

- `src/` is the verified library. `agent` holds the tools that a model may ask for: what is run, how
  files, searches and web pages are reported, the preview of a change, and the table of requests to
  tool servers. `backend` holds what is sent to a model and what is read from its answer, how a local
  server is started, and the rate limiter. `tui` holds the state of the program and every key and
  event that changes it, the lines that stand on the screen, and the laws that hold of all this
  (`tui::laws`). `text`, `bytes` and `json` are what the rest is written with.
- `src/outside.rs` holds the calls into other crates. What is said of their results there is taken on
  trust; everything else is proved.
- `app/` is the program around the library: processes, files, the network, the clipboard and the
  terminal. It works through a `Host`, which supplies the settings, the memory, the tool grammar, and
  the model that Anthropic is asked for where the settings name none.
- `tests/` runs the library.
