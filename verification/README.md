# hardshare

Share hardware with the rerobots infrastructure: manage the local
configuration of workspace deployments, decide what the container worker does
with each instance, filter HTTP and RPC traffic by access rules, and frame the
data that goes to and comes from devices.

## Layout

- `src/` is the library, written in Verus. Its functions carry contracts
  that Verus proves, and the laws that relate several functions stand as
  public proof functions named `law_*`. Ten small functions marked
  `#[verifier::external_body]` call outside code; Verus trusts their
  contracts without proof:
  - `text::push_char` (`String::push`),
  - `http::lossy_text` (`String::from_utf8_lossy`),
  - `cli::to_lowercase` (`str::to_lowercase`),
  - `mgmt::pub_extension` (`Path::with_extension`),
  - `control::random_u16` (`rand::random`),
  - `tokens::org_claim` (`jwt::Token::parse_unverified`),
  - `tokens::parse_token` (`rerobots::client::TokenClaims::new`),
  - `tokens::token_expired` (`TokenClaims::is_expired`),
  - `camera::encode_jpeg` (`image::write_buffer_with_format`),
  - `camera::encode_base64` (base64 `STANDARD.encode`).
  - `text`, `numbers`, `strmap`, `json`: strings, decimal and byte encodings,
    string-keyed maps and JSON values, each with a mathematical model.
  - `mgmt`, `tokens`, `report`: the local configuration, API tokens and what
    is printed of them.
  - `control`, `container`, `check`, `api`: the state machine of an instance,
    the commands that launch and stop containers and tunnels, the checks of
    container providers, and the requests to and replies from the server.
  - `http`, `rrhttp`, `rrpc`, `upload`, `camera`: request parsing and rule
    matching for the proxies, framing of uploads, and camera streaming
    decisions.
  - `cli`: the decisions of the command-line subcommands.
- `app/` is ordinary Rust around the library: argument parsing, files,
  processes, sockets and the asynchronous clients. It hands the library plain
  values and acts on what comes back.
- `tests/` runs the library on concrete inputs.
