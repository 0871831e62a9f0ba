# agent_collaboration

A multi-agent collaboration framework whose decision logic is verified with
Verus.

- `src/` is the verified library: the agent life-cycle state machine, errors
  and their categories, retry policies, the circuit breaker and the retry
  decisions, task analysis, the sequential, parallel and hybrid
  decomposition strategies with the execution-plan builder, agent
  assignment, the heuristic code analysers, result aggregation and
  summaries, LLM request bodies, response parsing and error mapping, and the
  provider fallback decisions. Public proof functions named `law_*` state
  properties that hold across calls.
- `app/` is the runtime around it: asynchronous agents and channels
  (tokio), capabilities, the retry loop, HTTP clients for the LLM providers
  (reqwest), the coordinator that runs the specialists, and logging
  (tracing). It calls the library for every decision.
- `tests/` runs the library on concrete values.
