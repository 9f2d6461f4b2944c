# Orbital

A solar-system simulator and deterministic interplanetary trajectory solver,
with a verified decision core.

`src/` is the core, written in Verus: the body catalogue and its physical tables,
the mission file, the command line, calendar dates, the seeded beam search
(what is drawn, what is kept), route discovery, the damped Newton corrector, the
descent on a tour's schedule, the bookkeeping of the integrator, of the ephemeris
sources and of a frame. Doubles pass through it as bit patterns: it orders,
selects and stores them, and never computes with them.

`app/` is the program around it: the floating-point physics (n-body dynamics,
conics, Lambert's problem), the SPICE kernels, files, the window and the GPU. It
performs what the core asks for and reports back.

`tests/` runs the core on concrete values.

| Module | What |
|---|---|
| `bodies`, `physical` | catalogue, names, NAIF numbers, exact tables |
| `scalar`, `text`, `rng`, `words` | doubles as patterns, text, the random stream, words and bytes |
| `problem`, `cli`, `dates`, `mission` | requests, arguments, dates, the mission file |
| `seeding`, `mutation`, `bounds`, `identity`, `beam`, `search`, `pilot` | the beam search, and what holds of a whole search |
| `routes`, `auto`, `incumbent` | route discovery and multi-start campaigns |
| `shooting`, `schedule`, `tour`, `refine`, `lambert` | correction, schedules, flybys, whole refined tours, arcs |
| `propagation`, `tableau`, `evaluation`, `ephemeris` | integration, scoring, body states |
| `porkchop`, `scene` | launch-window grids, what a frame draws |
