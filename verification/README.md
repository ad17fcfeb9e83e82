# compas

The core of an orchestrator of coding agents: threads of messages that agents
work on, the lifecycle of those threads, the merge queue, the tools that a
client calls over MCP, and a terminal dashboard.

`src/` is the core, written in Verus. Every function states what it returns, and
Verus proves it, but for the calls named at the end. `app/` is what surrounds
it: terminal, MCP transport, processes and storage.

## Layout of `src/`

| Module | What it holds |
| --- | --- |
| `text`, `sort`, `double`, `style` | strings as sequences of characters, a stable sort, quotients rounded as `f64` rounds them, styled lines and how `ratatui` wraps them |
| `json`, `clock`, `ids` | `serde_json`, `chrono` and `ulid`, behind stated contracts |
| `store`, `events`, `health`, `error` | the rows, events and errors that everything else speaks of |
| `hooks` | which hooks an event has, what they read, when they are ended |
| `lifecycle` | closing, abandoning and reopening threads; queueing merges |
| `mcp` | what each tool asks for, refuses and answers |
| `dashboard` | selection, keys and mouse, refreshing, actions, and the lines of every view |

## How decisions and effects are parted

Where work needs the store, a process or the clock, the core holds a machine: a
function from the reply to the last step to the next step. `app/` performs the
step and hands back the reply. `Dispatching::next`, `LifecycleService::close`,
`LifecycleService::abandon`, `LifecycleService::reopen`, `MergeService::queue_merge`
and `commit_step` are of this kind; `BatchAbandoning` and `BatchRun` name the
thread of a batch that comes next. What holds of
whole runs is stated by the `law_` functions beside them.

## What is not proved

The functions marked `#[verifier::external_body]` and the two specifications of
`std` in `text` call code outside this crate. Each says in its comment what it
claims of that code.
