# option_settlement

Settlement of option positions at expiry, as a verified Verus library.

When an option instrument expires, a matching engine closes every open position in it: at
its close price or at zero where it is out of the money, in cash where the underlying is an
index, or by delivery of the underlying at the strike. Each leg is a market order with its
fill. The identifiers of orders and trades follow from what identifies the position, so an
attempt that is repeated after a restart finds what an earlier one has done, and completes
deliveries of which only the option was closed.

The library decides; a host performs. A run asks for one thing at a time (positions,
instruments, prices, orders), takes in the answer, and gives out order events.

| Module | Contents |
| --- | --- |
| `model`, `amounts`, `decimal` | positions, instruments, orders, fills; prices and quantities; decimal arithmetic |
| `hash`, `uuids`, `identity` | deterministic identifiers, and why they tell legs apart |
| `terms`, `faults` | what a settlement consists of, and what rules one out |
| `engine`, `plan` | exercise, prices, identifiers and the legs of a plan |
| `protocol`, `apply`, `expiry`, `errors`, `accounts` | requests and answers, applying a plan, the whole attempt |
| `trace`, `laws`, `attempt` | what holds of every run of a plan, of every step, and of whole attempts |

`app/` runs attempts against a cache, a clock and an event bus. `tests/` runs the library on
concrete values.
