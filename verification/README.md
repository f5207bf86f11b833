# SimDeck

SimDeck makes simulators reachable: a service runs in the background, devices
are paired with it, and commands act on simulators through it.

`src/` is the library: the decisions that SimDeck takes, written in Verus. Each
function states in its contract what it returns for every input, and the public
proof functions state what holds of several functions together, such as that a
service which was started is found again by the options, the record and the
command line that it was started with.

- Texts and numbers: `text`, `numbers`, `encoding`, `quoting`, `json`,
  `path_shape`, `paths`
- The command line: `cli`, `launch`, `input`, `commands`, `devices`
- The service: `modes`, `metadata`, `start`, `serve`, `health`, `processes`
- The LaunchAgent: `launch_agent`, `service`, `arguments`, `plist_guard`,
  `plist_text`, `plist_binary`, `written_plist`
- Credentials and pairing: `auth`, `credentials`, `net`, `pairing`
- The studio and the inspector: `studio`, `webkit`

`app/` is the program around it: it parses the command line, talks to the
system and to services, keeps the files, and carries out what the library
decides.

`tests/` runs the library on concrete values.

What is not proved is said where it is used: a few calls into `serde_json`,
`plist`, `http`, `qrcode` and the standard library, each behind a function
whose comment says what is claimed of it.
