# oxibrowser_core

The core of a headless browser that runs as a wasm plugin: page dispatch and host ABI,
written in Verus.

* `src/host_abi.rs`: packed pointers and lengths, and HTTP fetches through the host
* `src/wasm_dispatch.rs`: how calls are read, what they lead to, what is answered
* `src/page_table.rs`: the pages that stay open, at most sixteen, least recently used out
* `src/page_laws.rs`, `src/dispatch_laws.rs`: what holds over several operations
* `src/json.rs`: JSON values and their mathematical form
* `src/json_codec.rs`, `src/base64_codec.rs`, `src/text.rs`: text forms; these hold the
  trusted wrappers around `serde_json`, `base64` and the standard library
* `app/`: the exported functions, guest memory and the async plumbing around sessions
