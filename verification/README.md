# tower-api

Control of an Adafruit USB tri-color tower light with buzzer over a REST API.

- `src/` is the verified library (Verus):
  - `state` — channel and light state, channel names and route parsing;
  - `hardware` — command bytes, device port selection and resolution;
  - `engine` — effect tasks (blink, pulse, timed, sequence) as a step-by-step
    runner, the order in which a job is started, and the table of running
    tasks, with the laws of their runs;
  - `api` — request and reply types and the plan of every REST request;
  - `reconnect` — state restore commands and the reconnect monitor's decisions.
- `app/` is the program around it: the serial port, the tokio tasks and the
  axum routes, which carry out what the library plans.
- `tests/` runs the library on concrete values.
