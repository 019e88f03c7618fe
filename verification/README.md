# app_frame

An application framework that runs and monitors long-running services,
split in two:

- `src/` is the verified library (Verus): the backoff tracker and its
  strategies, queue-receive configuration, the step a waiting receive takes
  next, chunking and cooldowns, batch bookkeeping, the health assessment of a
  service, the summary of a check, what to publish and which services to
  restart, and the answers of the health endpoint.
- `app/` is the asynchronous runtime around it (tokio, hyper, async traits,
  logging, the `inject!` and `application!` macros). Its loops sleep, await
  and pop the priority queue, and ask the library what to do at each step.
- `tests/` exercise the library on concrete values.
