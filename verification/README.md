# itmo_calendar_sync

Publishes the personal schedule of an ITMO student as an iCalendar feed.

`src/` is the library, verified with Verus: the login to the ITMO account, the requests for the
schedule, the calendar that is made from it, the cache in front of it, the notices to the
operator, the settings, and the answers of the server. What the network and the clock bring in
are arguments of its functions; what is to be sent or waited for is returned.

`app/` is the program around it: HTTP in both directions, files, environment variables, signals.

    itmo-calendar-sync                                run the server
    itmo-calendar-sync healthcheck                    ask a running server whether it is well
    itmo-calendar-sync fetch-api [OUTPUT]             save the answer of the ITMO API
    itmo-calendar-sync convert-ics [INPUT] [OUTPUT]   make a calendar of a saved answer

| Variable | Meaning |
| --- | --- |
| `LISTEN_ADDR` | where the server listens; `0.0.0.0:3000` if unset |
| `CALENDAR_TOKEN` | the calendar is served as `/calendar/<CALENDAR_TOKEN>.ics`; 32 bytes or more |
| `CACHE_TTL_SECONDS` | how long a calendar is good; 900 if unset |
| `ITMO_USERNAME`, `ITMO_PASSWORD` | the account |
| `TELEGRAM_BOT_TOKEN`, `TELEGRAM_CHAT_ID` | who tells whom of failures; both or neither |
| `TELEGRAM_PROXY_URL`, `TELEGRAM_SILENT` | how they are told |

## Layout

- `calendar`, `calendar_laws`: the iCalendar document, and what holds of it
- `itmo`, `value_laws`: the schedule, how it is asked for, and what its values say
- `auth`: the login and its token
- `cache`: when the calendar is made anew and what is served meanwhile
- `telegram`: one notice for a failure, one for the recovery
- `server`, `config`: who may see the calendar, the command line, the settings
- `web`, `dates`, `codes`, `text`, `error`: what these are built from; the calls into `reqwest`,
  `chrono`, `sha2`, `base64` and `rand` stand here, those into `regex` and `serde_json` in `auth`
