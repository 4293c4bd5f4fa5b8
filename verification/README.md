# mxc_service

The core of the MXC network broker, written and verified in Verus.

The broker is an elevated service. On behalf of unprivileged callers it installs
filters in the Windows Filtering Platform that decide what one sandbox (one
AppContainer) may connect to, and it takes them out again when it is told to or
when the sandbox ends.

## What is proved

- The filters of a policy do to every connection what the policy says: a rule
  that blocks always wins, a rule that allows carves a hole into the default, the
  default blocks the rest, and other sandboxes are left alone
  (`arbitration::law_filters_decide_as_policy`).
- Adding a policy is all or nothing, and removing it gives the engine back as it
  was, as far as the engine deletes what it is told to delete; the filters of
  others are left alone in any case (`atomicity`).
- What is opened is closed exactly once: the engine when its access list is
  changed, the state of a signature check, the impersonation of a caller (`ace`,
  `authz`, `identity`).
- A watch that was cancelled stays cancelled, and a watcher that waits or polls
  then ends without having its policy removed (`lifetime`).
- What a script asks for in host names reaches the service as valid rules, with
  blocked hosts before allowed ones (`broker::law_session_decides`).
- Frames, IP addresses, UTF-16 texts and diagnostic envelopes read back as what
  was written.
- Every reply, error text, log line and diagnostic line is stated exactly.

## Layout

| Module | Holds |
|---|---|
| `proto`, `debug`, `frame` | requests, responses, errors, their texts, frames |
| `filter`, `policy`, `engine` | from rules to filters; installing and removing them; sessions |
| `arbitration`, `atomicity` | what filters do to connections; what operations do to the engine |
| `ace`, `grant`, `wfp_grant`, `service_sid` | the rights of the service on the engine |
| `ipc`, `lifetime`, `identity`, `authz` | requests and their effects, watchers, callers |
| `rpc`, `client` | the transport and the client |
| `broker`, `network`, `proxy`, `models` | the network of a sandbox, on the side of the caller |
| `diag`, `log`, `service`, `listener` | diagnostics, logging, the service process, a test listener |
| `ip`, `ip_text`, `wide`, `text` | IP literals, UTF-16, text helpers |

The library makes no system calls. Where work alternates between decisions and
calls of the operating system, a value such as `policy::Installation` says what
to do next and is told what came of it; `app/` performs the calls.

`app/` is the program around the library: the service process on Windows, the
wire format, and the threads. `tests/` runs the library.
