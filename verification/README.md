# sqs_replayer_lambda

Sends messages from a replay queue back to the queue that they came from, with
exponential backoff and a limit on the number of attempts. A message that has
been replayed as often as allowed, has no configuration or is malformed is
reported as a batch item failure.

- `src/` decides, and is verified with Verus down to a few wrapped calls into
  the standard library and the SQS types: reading the environment, caching the queue
  configurations, building replay requests, grouping them into calls, and
  completing the response.
- `app/` acts: it is the Lambda function that reads parameters and events and
  makes the calls.
- `tests/` runs the library, with the flow of a whole batch in
  `tests/replay_flow.rs`.

The delay of an attempt is `min(maximum delay, backoff rate * 2^attempt)`, or
with jitter a number drawn between 0 and that.
