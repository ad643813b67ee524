# codex-account-switcher

A terminal program that keeps several Codex accounts, shows how much of their quota is left, and
switches the account that Codex uses. A second command reports on the tokens that past sessions have
used.

`src/` is the library. It holds all rules of the program, and Verus proves that each function meets
its contract:

- `model`, `percent`, `timestamp`: accounts, quota windows and points in time
- `identity`, `claims`: account ids, and what access tokens say
- `storage`, `codex_auth`, `settings`: the stored accounts, the authentication file of Codex, and
  where files lie
- `api`, `oauth`: what is asked of the service, and what becomes of its replies
- `listing`, `app`, `app_laws`: which accounts are listed, and what keys and replies do
- `theme`, `view`: what is shown
- `options`, `sessions`, `chart`, `usage`: the report on session usage
- `text`, `order`, `binary64`, `json`, `encoding`: text, stable sorting, binary64 arithmetic on
  integers, JSON trees, base64 and SHA-256

Percentages and bars are computed in binary64. The library does this with integers, bit for bit, so
that every rounding is part of the contracts.

`app/` is the program around it: the terminal, files, HTTP, threads, the clock and the local time
zone. It hands plain values to the library and performs the work that the library asks for.
