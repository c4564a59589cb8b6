# mtui

A terminal manager for SSH tunnels over many hosts: connect to hosts, forward
local ports to what they can reach, watch the traffic, and find everything
again at the next start.

* `src/` is the library: the decisions of the program, written in Verus, with
  their contracts proved. It knows nothing of sockets, clocks or terminals, and of
  files only this: an SSH configuration that names others with `Include` has
  them read by the parser that the library calls.
* `app/` is the program round it: it reads keys and files, opens connections,
  and draws what the library says. Two things are worked out here: the quotient
  behind a rate, which is a floating point number, and the form of the file in
  which hosts are kept. Paths are joined here too, in the way of the machine.
* `tests/` runs the library.

| Module | What it decides |
| --- | --- |
| `text`, `paths`, `units`, `port_map` | text, paths, amounts, tables by port |
| `target`, `ssh_hosts` | what a target string and the SSH configuration mean |
| `ports` | which ports a remote host listens on |
| `login`, `relay` | the steps of logging in and of forwarding a connection |
| `tunnel_log`, `tunnel`, `session` | the tunnels of one host and its connection |
| `manager`, `commands`, `service`, `config`, `summary`, `overview` | all hosts, requests to them and the answers, what is kept and shown of them |
| `forms`, `app`, `keys`, `news` | the state of the screen |
| `styles`, `screen`, `popups` | what stands on it |
| `session_laws`, `manager_laws`, `app_laws` | what holds whatever is asked or typed |
