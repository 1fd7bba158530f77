# tinychat

A terminal chat router for local model servers, with its decisions verified by Verus.

- `src/` is the verified library:
  - `profiles`: profile names, their labels and parsing, and the per-profile settings;
  - `config`: the configuration types, the checks a configuration passes, and the table
    of profiles;
  - `router`: the rules that pick a profile for a prompt, and the reason given;
  - `session`: the in-memory conversation and the messages a request carries;
  - `client`: the request a profile makes, the framing of the server-sent reply stream,
    and the accumulation of a streamed reply;
  - `ui`: slash commands, the step the terminal takes for each line, and what to print for
    each streamed event;
  - `text`: the string operations the rest is specified with (trimming, ASCII lowering,
    words, substring search).
- `app/` is the program: argument parsing, reading the configuration file, the HTTP
  transport and the terminal loop.
- `tests/` exercise the library on concrete values.
