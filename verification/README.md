# switchboard

An HTTP proxy for LLM APIs that forwards requests to the Anthropic API and
logs the traffic it carries, with the decisions it makes verified by Verus.

## Layout

- `src/` is the verified library. Every function there has a contract that
  Verus proves, except the few that call std or an outside crate; Verus
  trusts their contracts (`#[verifier::external_body]`):
  - `text::push_char` (`String::push`), `paths::parent` (`Path::parent`) and
    `paths::same_path` (`Path` equality);
  - `logger::project_data_dir` (`directories::ProjectDirs`; the directory
    depends on the environment, only its last component is stated),
    `logger::io_error_text` (the text of an I/O error, no contract) and
    `log_filter::parse_env_filter` (`EnvFilter::try_new`);
  - `proxy::header_value_from_str` (`HeaderValue::from_str`),
    `proxy::parse_uri` (parsing a `hyper::Uri`), `proxy::lossy_text`
    (`String::from_utf8_lossy`) and `proxy::pretty_json` (`serde_json`);
  - and the outside types `std::io::Error` and `EnvFilter`, declared opaque.

  The modules:
  - `config`: loading and validating the configuration from a snapshot of the
    environment variables (`load_config` returns exactly `spec_load_config`
    of the snapshot);
  - `proxy`: which request headers go upstream, which response headers come
    back, how bodies and headers are logged, and `proxy_step`, the state
    machine that drives one proxied request from its arrival to its reply;
  - `logger`: log directory selection, environment classification, log file
    path validation and the log filters of the file and stdout outputs;
  - `log_filter`: which filter texts the filter parser takes, and
    `LevelFilter`, a parsed filter kept with the text it was parsed from;
  - `log_cleanup`: which log files a cleanup removes, and how results add up;
  - `text` and `paths`: the string and Unix path primitives underneath.
- `app/` is the program around the library: environment and file system
  access, the tracing subscriber, the axum server and the reqwest client. It
  feeds the library plain values and performs the actions it asks for.
- `tests/` runs the library on concrete inputs.

The public `proof fn`s in `src/` state the properties that hold across calls,
such as that the API key always replaces any client credentials upstream,
that sensitive headers are never logged, and that a cleanup only ever removes
old log files.
