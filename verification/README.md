# omni_stream

The core of the Omni Stream backend, a proxy between a crypto terminal in the browser and the
services it needs: chat completions, exchange tokens, market data, chart state and the chart
widget. The library decides; it does no input or output itself.

- `src/` holds the library. Its functions carry contracts that Verus proves, except for the eight
  small ones around calls into other crates, whose contracts are taken on trust (see below).
- `tests/` runs it on concrete values.
- `app/` is the server: routes, sockets, timers, the store, and floating point.

| Module | What it does |
|---|---|
| `text`, `decimal`, `rewrite` | searching, replacing and trimming; numbers in text; ordered rules |
| `json`, `http` | documents; replies, headers and status codes |
| `config`, `service` | settings and allowed origins; what the service says of itself |
| `kucoin`, `nim`, `phemex` | the token proxy, the completion stream, the market data relay |
| `keys`, `chart` | receiving an encrypted key; saving and loading chart state |
| `tv_proxy`, `script`, `tv_laws` | fetching and rewriting the chart widget's files |
| `tv_socket`, `frame`, `candles`, `feed` | the chart socket, its history and its live feed |

The calls into `serde_json`, `hex`, `base64` and `aes-gcm` stand behind eight small functions marked
`external_body`, or behind `assume_specification`; the comment above each says what is taken on
trust.
