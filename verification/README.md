# arb_revm

Rules of an Arbitrum EVM on revm, written in Verus: every public function of `src/` has a
contract, and the laws that relate functions are proof functions beside them.

- `transaction`, `l1_cost`, `compression`, `rlp`: transactions, their encodings, and what they
  pay for their data on the parent chain.
- `compiled_frame`, `evm`, `spans`: which frames run as compiled programs, and which frames are
  open for an account.
- `execution`: that programs which do what their code does change no execution.
- `stack_dispatch`, `operand_stack`, `instructions`, `spec`: the instruction table and the
  kernel that calls hot stack instructions directly.
- `phase_timing`, `run`: the phases of a transaction and the record of them.
- `primitives`, `words`, `bytes`, `text`, `counters`, `hashing`, `constants`: plain values.

What revm and the brotli encoder compute is called through functions marked
`#[verifier::external_body]` and through `assume_specification`; the doc comment of each says
what is trusted. `app/` puts the library on revm's interpreter, handlers and contexts.
