# tokio_otp

A verified core for OTP-style runtimes on Tokio: supervision trees, graphs of
actors, and the glue that hosts one inside the other.

* `src/` decides. It holds the policies, the state of a running supervisor, the
  wiring of actor graphs, the books on blocking tasks and the handling of every
  send, each with a contract that Verus proves. Nothing in it waits, spawns or
  keeps time: each step takes what has happened and says what is to be done.
* `app/` acts. It spawns the tasks, waits on the channels and clocks, and feeds
  what happens back into the library.
* `tests/` runs the library with the outside crates linked.

Where to start reading:

* `src/supervisor/runtime/model.rs` is the state of a supervisor as a
  mathematical value; `src/supervisor/runtime/laws.rs` is what holds of it across
  steps, and `src/supervisor/runtime/stop_laws.rs` what holds once it has stopped.
* `src/actor/blocking_finish.rs` is how an actor's blocking work ends, and which
  failures the actor ends with.
* `src/actor/delivery.rs` is what a send that waits goes through.
* `src/token.rs`, `src/queues.rs`, `src/text.rs`, `src/actor/envelope.rs` and
  `src/supervisor/runtime/slots.rs` hold what is believed of the outside crates
  without proof.
