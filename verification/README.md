# conduit

The rules of the Conduit payment-stream contracts on Soroban, written in Rust and
proved with Verus.

| Module | What it holds |
| --- | --- |
| `drip_oracle` | the price oracle: whitelisted oracles per asset, a bounded buffer of observations, and the time-weighted average read from it |
| `oracle` | a single price feed that its admin pushes, and fiat payouts at its price |
| `batch_transfer_processor` | totals of batches of transfers under a lock |
| `factory` | the digest and the signature that open a stream from another chain |
| `stream` | the stored state of a stream and its flags |
| `address`, `invocation` | ledger addresses, and what a call is told of its surroundings |
| `host` | the lists, SHA-256 and ed25519 of the Soroban host, with the contracts that are believed of them |

`src/` is the verified library. A contract's storage is a plain value in it, the
ledger clock and the checked signatures come in with an `Invocation`, and a call
that has to extend the lifetime of an entry notes the entry in `touched`.

`drip_oracle/model.rs` says what each call of the price oracle answers and what it
leaves behind; `drip_oracle/laws.rs` proves what follows for the oracle as a whole.
The other modules keep their laws at the end of the file.

`app/` holds the Soroban contracts around the library: they read the ledger,
check signatures, call the library and write back. `tests/` runs the library on
concrete values.
