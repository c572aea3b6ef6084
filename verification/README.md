# mirage-engine

The engine of a simulated network ("Truman"): a guest machine talks standard
protocols to a world of hosts that are materialized the first time the guest
looks at them, and stay the same ever after.

Layout:

- `src/` — the verified library (Verus):
  - `facts.rs`: the persona of a host and its services;
  - `world.rs`: the append-only fact store, subnet membership;
  - `materialize.rs`: the `Materializer` trait and the rule-based materializer;
  - `wire.rs`: which address a frame is for (header parsing by smoltcp);
  - `engine.rs`: the decisions for each frame: drop it, or make sure a host
    exists and deliver it there;
  - `device.rs`: the in-memory wire between the guest and a host;
  - `guest.rs`: frames as the guest sends them;
  - `ip.rs`, `text.rs`: addresses and their dotted-quad text;
  - `laws.rs`: properties that hold across calls (monotonic facts, frames
    addressed to their targets, started hosts are materialized hosts).
- `app/` — the demo program: smoltcp's `Device` traits for the wire, a
  smoltcp interface per host, and the loop that runs them.
- `tests/` — tests of the library, including full ARP and ping exchanges
  through smoltcp.
