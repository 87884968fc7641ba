# ta_indicators — verified decision core

A Verus library for TradingView-style indicator families (liquidity sweeps, volumetric trend ribbon, momentum/volatility composite,
adaptive baseline, self-strength oscillator, renko system, anchored VWAP,
Wyckoff phases, Darvas/turtle breakouts, Ichimoku cloud, Heikin Ashi).

The indicators compute on floating-point prices. Verus does not take floats,
so the crate is split in two:

- `src/` — the verified library. Every discrete decision the indicators make
  is here with an exact contract: strict comparisons over order keys of
  prices (`keys`), swing pivots (`pivots`), liquidity sweeps with their
  cooldown (`sweep`), window extremes and window sorting (`windows`), the
  seeding of exponential averages and the readiness of moving-average windows
  (`smoothing`), VWAP sessions (`vwap`), breakout tracking (`darvas`), Wyckoff
  phases (`wyckoff`), the dominant factor of the composite (`momentum`),
  baseline votes (`baseline`), the trend-ribbon state machine (`ribbon`), the
  renko brick/signal state machine (`renko`), and sides and crossings
  (`side`). Properties that span bars or calls are stated as `law_*` proof
  functions.
- `app/` — the floating-point pipeline behind the public indicator API
  (`tradingview::validated::*`), which computes prices and hands the
  decisions to the library.

`tests/` holds concrete tests of the library and the golden-export harness
helpers (column selection, CSV row parsing, cell comparison).
