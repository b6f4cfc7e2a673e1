# ccsplit

A log-file tool with a verified core. `src/` holds the library, verified with
Verus; `app/` is the command-line program around it.

```
ccsplit [OPTIONS] <command> --file-name <file-name>
    <command>: count | split | time | diff
    -r, --regex <regex>              the key pattern (group 1 is the key)
        --starttime <starttime>      e.g. "2021-06-29 13:06:56"
        --stoptime <stoptime>        e.g. "2021-06-29 13:18:06"
        --minuend-regex <regex>      start lines for `diff`
        --subtrahend-regex <regex>   end lines for `diff`
```

Library modules:

- `pattern`: compiled regular expressions and what their searches find.
- `clock`: date-time stamps and their parsing.
- `command`: the command names.
- `filename`: safe per-key file names.
- `split`: routing lines to per-key files (`split`).
- `tally`: counting keyed findings and ranking them (`count`).
- `window`: cutting lines between two times (`time`).
- `timediff`: stamp layouts and start/end time differences (`diff`).
- `db`: the table, statements and rows of an SQLite import.
