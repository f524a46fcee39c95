# oxllm

An adaptive routing gateway for LLM providers. Clients speak the OpenAI
protocol to it; it passes their requests on to the first provider that may be
chosen, and goes on to the next where one fails.

The rules that decide this are a library that is verified with Verus. Whoever
runs the gateway reads configuration, sends and receives, and asks the library
what to do.

| Module | What it decides |
| --- | --- |
| `config`, `expand`, `source` | the parts of a configuration, the variables in it, where it comes from, whether it holds together |
| `state` | what is known of the providers, and which of them can serve a virtual model |
| `router` | which provider may be chosen, and what the outcome of an attempt means for it: the circuit breaker |
| `proxy` | how a request is served, from its body to what is delivered |
| `headers` | what is read out of HTTP headers, and which of them are passed on |
| `auth` | who may ask for what |
| `routes` | the list of models, the status, and what administrators do |
| `reload` | whether a new configuration takes the place of the old one |
| `request_id`, `telemetry` | how replies are told apart, and what is recorded and measured |
| `cli` | what the command line shows and answers |
| `json`, `text`, `reply`, `error` | documents, texts, replies and errors |

The base URL of a provider is written with a slash at its end: what a provider
is asked for is joined to it as a relative URL, which takes the place of
whatever follows the last slash.

Administrative routes answer requests from a loopback address only, with and
without a key.

Clock readings are nanoseconds since the gateway was started. Functions that
need the time are given it, and so are the environment, the contents of files
and what providers answered.

`app/` is the program around the library: the command line, the HTTP server and
client, signals, and the formats of files and replies. `tests/` exercises the
library with the crates it is linked with.
