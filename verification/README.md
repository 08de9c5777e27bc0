# namada_ledger

Verified pieces of a ledger that is bridged to Ethereum.

* `oracle` watches Ethereum for events of the bridge contracts. `oracle::process`
  checks one block, `oracle::run` goes from block to block; both are functions from a
  state and an event to the next state and the work to do. Events that lack
  confirmations wait from block to block until they have them. `oracle::process_laws`
  and `oracle::run_laws` say what holds of whole runs.
* `storage_key` builds and recognises the storage keys of tokens; `storage` and
  `address` hold what keys are made of.
* `parameters` is the validity predicate of the protocol parameters.
* `transfer` writes a transfer of tokens as the ledger reads it.
* `uint256`, `ethereum` and `text` hold the values that the others work with.

`app/` holds the channels, tasks and services around the library.
