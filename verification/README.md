# web_speedtest

A service with which visitors compare how fast several lines are. It measures nothing itself: the
page does that in the browser, and the service keeps the results and shows them with masked
addresses.

- `src/` is the library, verified with Verus: reading a configuration, building the targets,
  deciding on reported results, tokens for later states of a result, statements for the database,
  reading and masking addresses, and the page.
- `app/` is the program around it: files, the database and the web server.
- `tests/` runs the library, with the outside crates that it lives with.

The service reads the file that `WEB_SPEEDTEST_CONFIG` names, else `WEB_SPEED_CONFIG`, else
`config.toml`:

```toml
[server]
host = "127.0.0.1"
port = 3000

[speedtest]
download_file_path = "/200mb.test"

[domains]
path = "domains.yaml"
blacklist = ["https://old.example.com"]

[[domains.overrides]]
name = "a1"
url = "https://a1.example.com"
```

and the lines from the YAML file that it names:

```yaml
domains:
  - name: a1
    url: https://a1.example.com
```
