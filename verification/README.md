# glim

A terminal user interface for monitoring GitLab CI/CD pipelines and projects.

The decisions of the application are a library verified with Verus (`src/`);
the terminal, the network, the clipboard and the configuration file are
handled by a thin program around it (`app/`).

## Layout

- `src/store.rs`: the project store, kept in table order (most recently
  active first), and how it reacts to every event.
- `src/app.rs`: the application step: key handling, notices, the store, the
  work handed to the outside world and the effects to start.
- `src/widgets.rs`, `src/input.rs`, `src/config_popup.rs`,
  `src/text_input.rs`: widget state, key handling modes, the configuration
  form and text editing.
- `src/notice.rs`: the notice queues (errors before information).
- `src/client.rs`, `src/error.rs`: request URLs, client settings, the
  combined job list of a pipeline, error classification and messages.
- `src/layout.rs`: where popups and notifications are drawn, and their text.
- `src/shader.rs`: a model of screen effects: how sequences, parallel
  groups and time-limited effects share out time, and the 256-color palette
  mapping. The program itself draws its effects with tachyonfx.
- `src/logging.rs`, `src/cli.rs`, `src/config.rs`, `src/domain.rs`,
  `src/ids.rs`, `src/text.rs`, `src/modulo.rs`, `src/event.rs`: settings,
  data types and small helpers.
- `app/`: `main`, the event loop, HTTP requests, drawing with ratatui,
  effects with tachyonfx, logging setup.
- `tests/`: tests of the library.

Run `glim --help` for the command line options. The configuration file holds
the GitLab URL and a personal access token with `read_api` scope; when it is
missing, the configuration popup asks for them.
