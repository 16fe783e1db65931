# drowned-god

Cockpit TUI for a local-LLM agent rig, and `bw-probe`, a Vulkan bandwidth probe for
its GPU. The logic of both is a library verified with Verus.

## Layout

- `src/`: the verified library.
  - `cockpit`: the cockpit's state; replies and key presses.
  - `chat`, `http`: chat exchanges, endpoint addresses, status codes.
  - `telemetry`, `single`: what the polled servers and tools say; the readings.
  - `screen`, `layout`, `palette`, `clock`: what is shown, where, and how.
  - `probe`: the choices and the arithmetic of the bandwidth probe.
  - `text`: trimming, splitting, decimal numbers.
- `app/`: terminal, network, subprocesses and Vulkan around it.
- `tests/`: tests of the library.

## Cockpit controls

- `↑ ↓`: move the model selector
- `enter`: send the input
- `esc` / `q`: exit

## Environment

- `DG_LLAMA_URL`: the model server, `http://127.0.0.1:8080` by default.
- `DG_FLM_URL`: the NPU server, `http://127.0.0.1:52625` by default.

`drowned-god bw-probe` compiles `shaders/copy.comp` and `shaders/triad.comp` with
`glslc` and measures the GPU.
