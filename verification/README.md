# dns_config

DNS auto-configuration for Linux, with its rules verified by Verus.

- `src/` is the library. It detects which program manages `/etc/resolv.conf`, picks a
  manager for it, and says which commands to run and which files to write. It does no
  input or output itself.
- `app/` asks the system, runs the commands and writes the files.
- `tests/` exercises the library.

The modules of the library:

| module | what it holds |
|---|---|
| `mode` | detection of the DNS management mode, question by question |
| `owner`, `nsswitch`, `resolver`, `network_manager` | what detection reads of each source |
| `factory` | the manager for a mode |
| `resolved`, `resolvconf`, `direct` | the three managers |
| `command`, `files` | how a plan of commands goes on; what actions do to files |
| `conf`, `config` | the entries of a `resolv.conf`; the settings to apply |
| `text`, `encoding` | lines, words and trimming; bytes as text |
| `*_laws` | what holds across functions |
