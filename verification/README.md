# nadbridge

A bridge from a Bluetooth LE remote control to a NAD amplifier and a Sony Bravia television.
Volume and mute go to the amplifier over its TCP protocol; every other key goes to the television,
as an IRCC key press or as an app launch.

`src/` is the library, written and proved in Verus: which key does what, what goes on the wire,
what a reply means, when a connection is opened, kept or given up, and what each event does. It
holds no socket and no clock.

| Module | What it is about |
|---|---|
| `action` | the keys and what each of them does |
| `dispatch` | actions, carried to the device that they are for |
| `nad` | commands to the amplifier, their replies, and the connection that is kept |
| `tv` | requests to the television, the connection that is kept, and the second attempt |
| `http` | responses, read piece by piece |
| `framing`, `bodies` | what the two ends of a connection read of each other |
| `hold` | keys that repeat while they are held down |
| `remote`, `bridge` | the remote control, its connection, and what each event does |
| `clock` | log lines with the time in UTC |
| `text`, `json` | characters, numbers, JSON |
| `outside` | what is taken from the standard library and `serde_json` on trust |

`app/` is the program around it: D-Bus, sockets, timers and the options file. It reads the options,
subscribes to the signals of the remote control and begins to connect to it. From then on it does
what a step of the library asks for and hands the result back through the value that came with the
step.

`tests/` runs the library on concrete values.
