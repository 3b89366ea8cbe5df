# composer

A scheduler for docker-compose services.  It runs or restarts services on the
cron schedules that their labels give, keeps a record of what it has run, shows
the status of all services, watches containers, certificates and the host, and
tells Slack of what changes.

The rules of the program are a library whose behaviour is stated in contracts
and proved with Verus:

| module | what it decides |
|---|---|
| `compose`, `compose_types`, `yaml` | the compose project, its commands, and what of its configuration may be logged |
| `scheduler`, `tasks` | schedules, which tasks the labels ask for, and the steps of a task |
| `last_run`, `paths` | the record of last runs, and the key of a project in it |
| `status`, `show_status`, `image_version` | the status table, with the version of each image |
| `container_monitor`, `certificate_monitor`, `system_monitor` | what is news, and how it is told |
| `install_commands`, `service_commands` | the systemd unit, the launchd plist, and how the daemon is controlled |
| `slack`, `time`, `text`, `text_map` | messages, instants, texts and ordered maps |

`app/` is the program around the library: arguments, files, processes and the
network.  `tests/` runs the library with the crates it calls.
