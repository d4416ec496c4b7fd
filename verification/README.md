# snxcore

The core of a client for Check Point VPN gateways, written in Verus: the
protocol logic carries `requires`/`ensures` contracts and is proved; the
code that talks to the operating system and the network stays thin and
ordinary.

## Layout

- `src/` — the verified library
  - `codec` — SLIM framing of the SSL tunnel (length, type, payload)
  - `sexpr` — the S-expression value model of the CCC protocol and the
    rules by which records are written into it and read out of it
  - `model`, `model::proto`, `model::params` — challenges, statistics,
    ESP algorithms, prompts, gateway login options, profile parameters
  - `profiles` — the store of connection profiles
  - `service` — the tunnel service's connection status and connector choice
  - `keepalive`, `rekey` — when the IPsec tunnel probes, renews and rekeys
  - `platform` (with `linux`, `macos`, `windows`) — resolver setup, default
    routes, NRPT rules, platform features, the route changes each platform
    makes for a routing configuration
  - `tunnel` — the routing an SSL tunnel asks for
  - `route_msg`, `stats` — routing-socket messages and interface counters
  - `peer`, `instance` — who may use the service socket; single-instance guard
  - `text`, `number`, `order`, `addr`, `table` — text, numerals, key order,
    addresses, aligned tables
- `tests/` — tests of the library
- `app/` — what runs around it: the `tokio_util` codec, the keepalive loop,
  floating-point rates and sizes, printed reports, the default-route search
