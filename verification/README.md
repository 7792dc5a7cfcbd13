# shinobi_solver

A solver for Shinobi Cash cross-chain intents: withdrawals from Ethereum to other chains and
deposits the other way. An intent names what its user puts up on the origin chain and what is to
be delivered on the destination chain, with an oracle in either direction and a refund call of its
own.

The library under `src/` is verified with Verus. It holds the rules: what an intent is and how its
order identifier is computed, when an intent is accepted, which transactions fill and claim it,
and how chains are watched for new intents.

| Module | What it holds |
| --- | --- |
| `bytes`, `primitives`, `text` | byte strings as numbers, addresses, 256-bit numbers, decimal and hexadecimal text |
| `abi`, `layout` | hashing and ABI encoding by way of the alloy crates, and which lengths in an encoded intent must not reach the decoder |
| `eip7683`, `intent`, `parsed` | outputs, intents, and what an intent offers and asks for |
| `settler` | the Solidity form of an intent, calldata, the `Open` event |
| `settlers`, `order` | configured settlers, validation, fill, claim and the creation of orders |
| `discovery`, `monitor` | connecting networks, from event to intent, polling and subscriptions |
| `laws` | what holds of an intent from its discovery to its settlement |
| `types` | orders, transactions and configuration |

Contracts are stated over mathematical values: the view of an intent is an `IntentView`, in plain
and in Solidity form alike, so that conversion keeps the view. Functions whose names start with
`law_` state what holds across operations: conversions and encodings read back what was written, a
created order can be filled and claimed, and however many polls a chain is watched by, every intent
opened in the blocks looked at is sent once and in order.

What the library takes from other crates stands behind small functions whose doc comments say what
is claimed of the outside function: Keccak-256, ABI encoding and decoding, hexadecimal text and
the reading of numbers, addresses and URLs.

`app/` is ordinary Rust around the library: chain connections, configuration files, JSON, and the
tasks that carry out what the monitors decide. `tests/` runs the library on concrete values.
