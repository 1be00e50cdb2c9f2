# vibagent

An agent that answers a user with the help of a language model and a set of
tools (a calculator, a shell command runner, web search, geocoding, weather
station lookup and climate data queries), served over HTTP as a stream of
events.

- `src/` is the verified library: the JSON document model, the agent's run
  as a state machine (requests, retries, the streamed answer, tool calls and
  their results), and what each tool decides and computes.
- `app/` is the program around it: the HTTP server, the requests to the
  model and to the web services, the shell, the terminal, the databases and
  the floating-point work, each driven by the library's decisions.
- `tests/` runs the library on concrete inputs.
