# aura_sdk

A verified core for an on-device LLM front end that runs chat models either
through Qualcomm's Genie runtime on the Hexagon NPU or through ONNX Runtime.

- `src/common.rs` — command-line options and the streaming statistics:
  `Stats::on_fragment` decides, for each fragment the dialog streams back,
  whether it is printed and whether streaming stops (stop markers, the token
  limit, runaway whitespace, end-of-answer sentence codes).
- `src/engines/genie.rs` — the Genie chat template.
- `src/engines/aura.rs` — the ONNX engine's decisions: chat template, input
  roles, which cached output feeds which cache input, the logits output, QNN
  paths, what is made of the tokenizer's answers, and `DecodeState`, the state
  of the token-by-token decode loop.
- `src/text.rs` — character-level text operations with their specifications.
- `app/` — the program: option parsing, the Genie C API, the ONNX Runtime
  session, the tokenizer (its calls can panic on some tokenizer files), argmax
  over the logits, printing and timing.

Everything under `src/` is verified with Verus, except the body of one
trusted wrapper around `String::push`, whose contract is taken on trust;
`tests/` runs the library.
