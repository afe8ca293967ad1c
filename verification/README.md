# localbench

LocalBench measures local models and the harnesses around them. It tunes a
model's launch configuration (`findbest`), drives a solver across every
harness arm and task of a matrix (`arms`), and measures what lessons are worth
(`uplift`).

`src/` is the library: every decision of the program, with its contract, proved
by Verus. It performs no input or output. Where a run alternates decisions and
outside work, the library holds the run's state machine: it says what it wants
done, and is told what came of it.

| part | modules |
|---|---|
| the tuner's search | `tuner`, `tuner_model`, `tuner_run`, `tuner_laws`, `tuner_silence`, `overrides`, `oracle`, `screen` |
| one trial of a configuration | `trial`, `chat`, `trial_run`, `cached_run`, `diagnostics` |
| the arm matrix | `matrix`, `matrix_run`, `container`, `solver`, `scorecard` |
| the scripted coach | `coach`, `coach_drive` |
| the lesson A/B | `upliftrun`, `uplift_run` |
| stores, files and formats | `export`, `gguf`, `json`, `output` |
| the command line | `cli`, `consumer`, `calendar`, `commit`, `text` |

A run's model is a plain value (`RunV`, `MatrixV`, ...), one transition is a
spec function over it, and the executable `step` is proved equal to that
function. What holds in every reachable state is a soundness predicate that
each transition keeps; the public `law_*` proof functions state the rest.

`app/` is the program: argument handling, processes, files, HTTP, resource
sampling, and the calls into the launcher, search, scoring and measurement
crates. Throughput, scores and statistics are floating point and stay there;
the library sees them as text, as ranks, or as the nodes of a JSON document.
