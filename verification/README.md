# domo

The authorization and naming core of the Domo device platform, written in
Verus: every decision is an executable function with a contract, and the
properties the platform relies on are stated as proof functions.

- `src/` — the verified library.
  - `topic` — the MQTT topic scheme, its broker routing keys, and which
    device owns which key.
  - `rmq` — the broker's HTTP authorization backend: the decisions for
    CONNECT, virtual host, resource and topic, and the session a CONNECT
    leaves behind (`tenants` holds the session cache and the tenant map).
  - `hand_rolled` — what goes into the AXIAM calls the SDK does not make,
    and what their answers mean.
  - `secrets` — paths inside the secrets tree, never outside it.
  - `tls`, `keys`, `codec` — the calls into rustls, rcgen, serde_json,
    base64 and uuid, each behind a trusted item with a stated contract.
  - `bootstrap` — the provisioning stages' decisions: the role catalog and
    its manifest, resource and group naming, resolve-before-create,
    certificate reuse, the smoke branch, its teardown order and verdicts.
  - `probe` — the simulated device: the negative matrix, its cases and how
    each observed outcome is classified, and the single-device tracer.
- `tests/` — scenarios on concrete values, through the public API.
- `app/` — the binary: the twin's TLS listener, the provisioning stages'
  SDK and HTTP calls, and the probe's MQTT sessions. It decides nothing on
  its own; it moves bytes between the network and the library.
  The twin's TLS listener is built on hyper, hyper-util, http-body-util and
  tokio-rustls, with serde_urlencoded for the broker's form bodies. reqwest
  already brings all of them, so the listener adds no second web framework
  and keeps the dependency tree small.
