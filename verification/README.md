# webhook-service

A webhook receiver with a durable queue:
`POST /webhook` -> verify HMAC -> durably enqueue -> `200` -> workers process -> persist result -> ack.

The rules are a Verus library under `src/`, each function with its contract:

- `api` limits and authenticates a request, checks its envelope and decides the answer
- `store` holds the tables: enqueue, claim with a lease, finish, fail, purge, invoices, the clock
- `processor` decides what an event does
- `worker` decides what workers do: backoff, retries, handling, the loops
- `settings` and `traffic` read the environment and hold the traffic poller's rules
- `queue_laws`, `invoice_laws` and `history_laws` state what holds across calls
- `duration` and `text` are the parts that the others share

`app/` is the program around it: HTTP, SQLite, the loops, and the traffic poller, which is started
with the argument `traffic-poller`. Each database operation loads the rows it needs, lets the
library change them, and writes them back in one transaction.

Env: `WEBHOOK_SECRET` (required), `DATABASE_URL`, `BIND_ADDR`, `WORKERS`.
