# sure_protocol

The Sure protocol's pool and shield programs as a verified library: every
function in `src/` carries a contract that Verus proves.

- `src/` — the library. Tick math (`tick_math`), ticks and tick arrays
  (`tick_v2`, `tick`), bitmaps (`bitmap`, `tick_bitmap`, `tick_word`),
  liquidity and premium accounting (`liquidity`, `liquidity_q32`,
  `fixed_point_math`), coverage positions (`coverage`, `contract`), pools and
  fee packages (`pool`, `fee`, `fee_package`), the shield state (`shield`),
  ownership checks (`account`), and a 256-bit integer (`u256`). `runtime`
  declares what only the Solana runtime supplies (account keys, the clock).
- `tests/` — tests of the library on concrete values.
- `app/` — what runs on the Solana runtime around the library: error codes as
  the runtime reports them, the floating-point price helpers and reward crank,
  and the token and metadata program calls.
