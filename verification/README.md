# edit_prediction

Edit predictions from an external server, as a library verified with Verus.

The library decides what is asked of the prediction server, what becomes of its replies, and what
is shown; an editor performs the steps and hands back what came of them.

## The library, `src/`

| Module | What it holds |
| --- | --- |
| `delegate` | the provider: which prediction is shown, which request is under way |
| `refresh` | getting a prediction, from the wait for further changes to the finished prediction |
| `prediction` | predictions as they are kept and as they are shown |
| `request` | the request for a prediction |
| `context` | what surrounds the cursor: recent changes, related files, open buffers |
| `diagnostics` | diagnostics as they are sent, and positions in a text |
| `labels` | suggestions of the language server |
| `jump` | where a jump leads to |
| `fate` | telling the server what became of a prediction |
| `quick_fix` | adding the imports that accepted edits need |
| `wire`, `json`, `outcome` | messages, JSON values, replies and errors |
| `path`, `point`, `text`, `distinct` | paths, places, texts |

Work that waits for something outside is a task: a value that says what has to happen next.
`awaits` tells which events answer it, and `step` gives the next task.

Public proof functions whose names begin with `law_` state what holds of the library as a whole.

Two things are taken on trust: that `String::push` appends a character, and that
`Path::strip_prefix` depends on the two paths alone, given the path syntax of the platform.

## The editor's side, `app/`

`app/` connects the library with an editor that implements its `Editor` trait. It holds the
messages in the form in which serde reads and writes them, and the loops that perform the tasks.
