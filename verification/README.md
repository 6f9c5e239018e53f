# mayara-signalk

The Signal K API of a radar server: what it answers to HTTP requests about
radars, controls and targets, and what it does on a client's stream.

`src/` decides and is verified with Verus. It works on plain values: the outcome
of looking for a radar, the values a request asks for, the event that a session
waited for. `app/` does what was decided: it looks things up, serves the routes
with axum, and runs the WebSocket sessions.

| Module      | Subject                                                       |
|-------------|---------------------------------------------------------------|
| `endpoints` | the routes, the OpenAPI document, the list of endpoints       |
| `response`  | the answers a Signal K server gives                           |
| `radars`    | radars, their capabilities, the status of the server          |
| `controls`  | reading and writing controls, one by one and several at once  |
| `targets`   | acquiring, listing and dropping targets                       |
| `session`   | a stream from the request for it to its end                   |
| `requests`  | what a client asks for over its stream                        |
| `updates`   | what a client is sent over its stream                         |
| `hello`     | the greeting of a client                                      |
| `json`      | documents held as `serde_json` values                         |
| `ordered`   | a map that is walked in the order of its keys                 |
| `order`     | the order of texts, and sorting by it                         |
| `text`      | the pieces that messages are put together from                |

Calls into `chrono`, `http`, `serde_json` and `utoipa`, and the quoting of texts
by `std`, stand behind small functions whose contracts are believed; each says
what it claims of the call.
