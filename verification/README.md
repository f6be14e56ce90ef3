# rrc404

Ice: one capped supply of tokens that exists either as fungible "Water" or as
non-fungible "Ice", converted back and forth by a Radix component.

- `src/` is the verified library (Verus):
  - `color.rs`: the five rarities and their images;
  - `rarity.rs`: the rule that picks the color of each new non-fungible (the
    color furthest behind its target share of 42/30/16/8/4 percent);
  - `time.rs`: the four-hour cooldown, computed on scrypto's UTC calendar;
  - `rrc404.rs`: the component state, `freeze` and `melt`;
  - `laws.rs`: properties that span operations (the supply cap, melting undoes
    freezing, freezing in two steps is one freeze, ids only advance, supplies
    stay non-negative, new colors stay within their target share and every
    color within one non-fungible of it).
- `app/` is the Scrypto blueprint: it creates the resources, moves buckets,
  mints, burns and reads the clock, and asks the library for every decision.
- `tests/` runs the library on concrete values.
