# Marrakesh

A marketplace simulation for studying auction dynamics, pricing and bidding
strategies in digital advertising: sellers offer impressions, campaigns bid on
them, and the simulation is rerun while the campaigns' pacing and the sellers'
boosts converge to their targets.

## Layout

- `src/` — the verified library (Verus). It holds the decisions of the
  simulation, each with a contract and, where they span several calls, laws:
  - `logger.rs`: which receivers get a log message (by event, with errors and
    warnings going to every event above theirs), and file-name sanitizing;
  - `campaigns.rs`: the campaign registry, value groups and their finalization
    (every campaign in exactly one group), and the controllers a campaign gets;
  - `sellers.rs`: the seller registry and which seller offers which impression;
  - `stats.rs`: the counts of sold, lost and unsold impressions of a run;
  - `convergence.rs`: when the convergence loop stops;
  - `scenarios.rs`: validation reports and the choice of scenarios to run;
  - `cli.rs`, `logfiles.rs`: the command line, and the messages and log files of
    a run;
  - `bidding.rs`, `targets.rs`, `text.rs`: names of the bidding components and
    decimal formatting.
- `tests/` — tests of the library.
- `app/` — the program around the library: the floating-point simulation
  (bids, auctions, controllers, random impressions), the scenarios, charts and
  the console and file output.
