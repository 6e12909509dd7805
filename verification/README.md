# OpenFlow

OpenFlow controls an Itho Daalderop DemandFlow/QualityFlow ventilation unit:
it decides, room by room, how much air to exhaust, from CO2 readings and RF
remote buttons, and drives the unit's exhaust valves and fan through its WiFi
module.

## Layout

- `src/` is the library, verified with Verus. It holds the decisions:
  - `co2.rs`, `histogram.rs`: the CO2 estimate of a room, from a histogram of
    sampled values;
  - `status.rs`: the ventilation status of a room and its order;
  - `state.rs`: the rooms, the air flow each one asks for, the flow handed out
    to reach the unit's minimum, the plan of exhaust and fan settings, and
    the settings recorded once the plan is carried out;
  - `inputs/co2.rs`, `inputs/remote.rs`: what a new CO2 level or a reading of
    the RF remote asks of the rooms;
  - `config.rs`: the configuration file, including the rule that the
    metrics and Hue addresses must be IP addresses (the program tells the
    library whether they are, as `std::net` stays outside it);
  - `json.rs`, `text.rs`: JSON documents (parsed by `jzon`) and text helpers;
  - `itho.rs`, `hue.rs`, `more_sense.rs`: the answers of the devices;
  - `metrics.rs`, `logger.rs`, `http.rs`: metric lines, log labels and the
    retry rule for requests.
- `app/` is the program around the library: argument handling, the HTTP
  clients (`ureq`), the UDP metrics socket, the threads and their timing, and
  the floating-point flow correction.
- `tests/` runs the library on concrete values.
