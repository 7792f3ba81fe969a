# usb_bridge

Shares USB devices of a Linux host (such as a Raspberry Pi) with Windows PCs over
USB/IP: the server lists the host's devices and keeps one exclusive session, a
privileged host agent binds and unbinds the devices, and the Windows client acquires
devices from the server and attaches them with usbip-win2.

`src/` is the library, verified with Verus:

- `protocol`: the values exchanged between server, host agent and clients
- `inventory`: the server's device list: classification, parent hub, natural bus-ID
  order, the listing built from sysfs, and the mock devices
- `session`: the exclusive session and how acquire, release and selection requests
  are decided and applied
- `host_agent`: the host agent's checks and its bind/unbind runs with rollback
- `device_policy`, `grouping`, `usbip`, `connection`, `config`, `api`, `logging`,
  `cli`, `gui`: the client: policy, hub grouping, usbip-win2 commands and output,
  the connect and disconnect runs (as state machines), settings, HTTP answers, the
  log file, the command-line texts and the desktop window's state
- `text`, `order`, `error`: strings, sorted sets of strings, and the client's errors

Each run that alternates decisions with I/O (connecting, disconnecting, a host-agent
request) is a state machine in `src/`: it names the next action, and the caller
performs it and hands back what came of it.

`app/` holds the programs around the library: the axum server, the host agent on its
Unix socket, the command-line client, the HTTP client, the settings file, the log file,
the usbip-win2 process runner, and the desktop client's background workers.

`tests/` runs the library on concrete values.
