# eclipsedtl

A deterministic engine for batched liquidity auctions and their settlement, written in Verus.
Batches of orders collect bids from operators; a risk engine admits or rejects each bid from its
price, fee, guarantee and the vault's liquidity; the best admitted bid is selected and settled
between payer, vault, recipient and the operator's fee account, with an explicit fallback to the
next admitted bid. Operator pledges, locked capital and exposure are accounted for, stressed
capital coverage and concentration are reported, and receipts reconcile per asset.

## Layout

- `src/` is the verified library. Every function carries a `requires`/`ensures` contract over
  mathematical models (`Seq`, `Map`, `int`) and Verus proves it. Keyed books (`store.rs`) are
  vectors kept sorted by key, viewed as maps. Public proof functions named `law_*` state
  properties that relate several operations, such as conservation of balances by transfers and
  settlements, the balance of reconciliation lines, or the algebra of policy decisions.
- `tests/` runs the library on concrete scenarios.
- `app/` is the command-line runner: it reads a JSON scenario, runs it through the library and
  prints the report as JSON (`eclipsedtl --scenario <path>`).

## Economics

For an input `x`, a rational price `p/q`, a fee `f` and a selected guarantee `g` (in basis points):

```text
gross_out          = floor(x * p / q)
operator_fee       = floor(gross_out * f / 10_000)
net_out            = gross_out - operator_fee
required_guarantee = ceil(gross_out * g / 10_000)
```
