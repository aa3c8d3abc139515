# mock_agones

A mock of the Agones SDK gRPC server, for testing game servers against.

- `src/` is the verified library. `server::MockSdk` is the mock's state: the
  calls made to it, the ping count of each health stream, the current
  game-server record, the status each kind of call is told to fail with, and
  one channel per watcher, on which every later game-server update (or
  configured error) is sent to that watcher. An update sent while no watcher
  is listening waits on a channel the mock holds, and the next watcher
  receives the waiting updates first. Each SDK call is a
  method whose contract says what is recorded and how the call is answered;
  `laws` proves what holds across calls.
- `app/` serves that state over gRPC on localhost (`MockAgonesServer`), with
  the SDK's wire messages and service, and shares the state between requests
  behind a lock.
- `tests/` exercises the library directly.
