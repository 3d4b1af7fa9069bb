# ethereal

Verified logic of two Scrypto components of the Ethereal DAO.

- `src/decimal.rs`: fixed-point amounts (192-bit attos as three digits) and their
  arithmetic, computed by scrypto's `Decimal` behind wrappers whose contracts
  state the rounding and overflow rules.
- `src/address.rs`: scrypto's resource and component addresses, carried
  opaquely; equality of resource addresses through scrypto.
- `src/tri.rs`: the weighted two-asset exchange: setup checks, reserve
  lookups, spot price, swap and deposit-size formulas, and the laws that tie
  them together (simulated and real swaps agree, a stopped exchange refuses,
  a swap never pays out more than the pool holds, ...).
- `src/alpha.rs`: the liquidity acquisition component's state and the step
  function of its rope, with the law that every finished rope hands the
  input back exactly once.
- `app/`: the blueprints themselves, which move buckets and vaults on the
  ledger and ask the library for every decision and amount. Fractional
  powers are computed there.
