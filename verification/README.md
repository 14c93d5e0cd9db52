# murmur

Notes for field work. A contractor talks while walking a site; murmur turns the
talk into items on a board, contacts, reports, and a numbered document.

- `src/` is the library, written in Verus. Its functions carry contracts over
  plain mathematical models, and what holds of the library as a whole stands in
  proof functions whose names begin with `law_`.
- `app/` is the program around it: the SQLite file, the memory file, the model's
  service, the bridge to the host application, and the transcription bench.
- `tests/` runs the library.

## How a run works

A run that needs the model is a value. It gives out a request, takes the reply,
and says what comes next:

    let mut step = processor.process(&mut work, session_id);
    loop {
        step = match step {
            ProcessStep::Ask(run) => {
                let reply = send(run.request());
                run.advance(&mut work, reply)
            }
            ProcessStep::Done(outcome) => return outcome,
        };
    }

The agent (`harness::agent`), the live pass (`notes::pipeline::live`), the
processing of a session (`notes::pipeline::processor`) and of the whole queue
(`notes::pipeline::queue`), the reflection (`notes::coordinator`) and the walk (`bridge::walk`) all have this form.

## What is promised

- A live item never lands after its session has stopped recording.
- Processing that fails keeps the board; processing that succeeds replaces live
  items by its own and keeps what was noted by hand.
- A document number is taken exactly when a document lands, and is kept when the
  session is processed again.
- What a model call has cost is logged, whatever became of it.
- A memory is saved as it is before it is rewritten. Corrections by the user are
  the last facts to go.
- An amount that was not heard is a gap, never a number.
