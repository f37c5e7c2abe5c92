# brc20_swap

The rules of a BRC-20 indexer with a swap module, verified with Verus.

- `src/` is the library, verified by Verus; its public functions state their
  results in contracts. It covers
  ticker names and their stored form, the stored form of module descriptions
  (`record.rs`), fixed-point amounts, owners of
  balances, the in-memory state of the index (`state.rs`, `table.rs`), the
  swap functions (`account.rs`, `pool.rs`, `liquidity.rs`), commits and
  withdrawals (`commit.rs`, `executor.rs`), withdrawals recorded by the swap
  service (`unisat.rs`), savepoints for reorganisations (`reorg.rs`), block
  ordering (`block.rs`), the indexing of a whole block (`indexing.rs`) and the answers of the query interface (`api.rs`).
  Calls into `bigdecimal`, `bitcoin`, `byteorder`, `hex` and `itertools` stand
  behind small trusted wrappers whose doc comments say what they claim.
- `tests/` runs the library on concrete values.
- `app/` is the program around it: the database migration tool (`redb`),
  logging and timing around the indexing of a block, and the JSON forms of the
  query answers (`serde`).
