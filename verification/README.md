# evo_toolkit

Verified core of a small set of workstation and home-lab tools:

- an eGPU daemon that watches the kernel log, decides on nvidia driver
  rebinding and PCIe resets (`kmsg`, `rebind`, `pcie`, `llm`);
- services and a tray widget for an EVO-X2 GPU box (`metrics`, `webhook`,
  `ocr`, `evo`);
- a FlowAudit app launcher (`apps`);
- a travel-router manager and its tray widget (`router`, `widget`).

`src/` is the library, written in Verus: each public function carries a
`requires`/`ensures` contract over spec functions and views, and the public
`law_*` proof functions state properties that span several calls. Decisions
that alternate with I/O (kernel-log monitoring, driver rebinding, PCIe
reset, polling) are state machines: a step function takes the state and the
outcome of the last action and returns the next state and action.

`app/` is ordinary Rust around the library: the command-line entry, sysfs
and network I/O, the HTTP servers, the GTK tray widgets, and the serde forms
of the library's types. `tests/` exercises the library through its public
API.
