# Aequimuta

Aequimuta publishes local TCP services through Tailscale Serve or through an
OpenSSH reverse forward. A project names its services in `aequimuta.toml`, says in
`aequimuta.publish.toml` which publisher each of them is to be published by, and
gives the SSH destinations in `aequimuta.openssh-reverse-tcp.toml`.

```text
aequimuta version | init | validate | validate-publishing | doctor | apply
aequimuta publish <service> <publisher>
aequimuta status <service> <publisher>
```

## Layout

`src/` is the verified core. It reads no file, starts no process and opens no
connection. Every operation is a function from what is known so far to the next
thing to do; the caller does it, adds what came of it, and asks again.

| Module | What it decides |
| --- | --- |
| `text`, `names`, `paths` | numerals, name grammars, path components |
| `document` | strict records in TOML documents |
| `declaration`, `publishing`, `project` | the two project files |
| `tailscale_serve_tcp` | reading the Serve state, and ensuring a mapping |
| `openssh_reverse_tcp` | destinations, control paths, `ssh` commands, processes, forwards |
| `publish`, `apply`, `status`, `doctor`, `init`, `cli` | the commands |
| `step`, `failure`, `outcome` | what is asked for next, and what is reported |

The contracts say for every input what is decided. Public proof functions next to the
decisions state what holds of them as a whole, such as that `apply` carries nothing
out before every check has passed.

`app/` is the program around the core: arguments, files, processes, sockets, and the
decoding of the JSON that `tailscale` prints. `tests/` runs the commands against a
simulated machine.
