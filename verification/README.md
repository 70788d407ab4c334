# auto_chess

The rules of an auto-battler game played through an on-ledger account,
with machine-checked contracts on every rule.

- `src/` is the verified library: the game's types (`structs`, amounts in
  `decimal`), the shop actions a player takes between battles (`actions`),
  the automatic battle between two teams (`combat`), fighter abilities
  (`abilities`), the bookkeeping of a round (`gameplay`), mapping raw random
  numbers into a range (`rng`), slot helpers (`team`) and the laws that hold
  across these functions (`laws`).
- `app/` holds the ledger components that keep accounts, vaults and the
  game's data stores, draw random numbers from the runtime, and call the
  library for every decision.
- `tests/` runs the library on concrete games.
