# agent_control

A development-time HTTP bridge that lets an agent drive a Tauri web view over
`http://127.0.0.1:9876`: snapshot the page, click, fill, evaluate JavaScript, read
storage, take screenshots and more. Every request is answered with a JSON body.

The decisions of the bridge live in `src/` and are proved with Verus:

- `http` — framing responses (`http_response`, `ok_json`, `err_json`), deciding how the
  head of a request is read from the socket (`next_read_step`), parsing it
  (`parse_request_head`), and completing the request with its body (`finish_request`).
- `routes` — which action a request asks for (`route`), the script each parsed body turns
  into (`plan_command`), and the `/get/…`, `/is/…` and `/storage/…` families.
- `bridge` — request identifiers, the script that evaluates an expression in the page and
  reports back, the table of evaluations awaiting a reply (`PendingReplies`), and how an
  evaluation ends (`finish_eval`).
- `replies` — turning outcomes (evaluation replies, screenshots, recordings, downloads,
  resizes) into responses, and the recording in progress (`Recording`).
- `text`, `numbers`, `unicode`, `json`, `percent`, `script` — the text handling underneath:
  splitting and trimming, decimal and hexadecimal numerals, case mapping and UTF-8,
  JSON string literals (through `serde_json`), percent-decoding (through `urlencoding`),
  and the JavaScript calls sent to the page helper.

`app/` is the Tauri plugin around it: the socket and its reads, the web view, the clock,
`screencapture`, `kill` and `curl`, and the serde parsing of request bodies. It performs
what the library decides. One rule stays there: growing the web view to the page's size
for a full-page screenshot, which reads the size as floating point.
