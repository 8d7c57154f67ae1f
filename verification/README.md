# AlgoQuant Engine

A library for trading strategies. It keeps a strategy's insights in step with a broker's reports,
runs live and on past market data, writes runs to a cloud or to a local database, sweeps over
hyperparameters, and shows a run in the terminal.

- `src/` is the library `aq_engine`. Every function states what it returns and changes, and Verus
  proves it. It holds no floating point: a number is the bit pattern of a float.
- `tests/` runs the library.
- `app/` is what surrounds it: floating point arithmetic, brokers, files, the cloud, the terminal
  and the loops that wait for them.

| Modules | What they hold |
| --- | --- |
| `timeframe`, `time`, `number`, `text`, `ids`, `json`, `table` | time frames and plain values |
| `insight`, `trade`, `collection`, `children`, `teardown`, `pipeline` | insights and what moves them |
| `state`, `lifecycle`, `universe`, `alpha`, `indicator`, `asset`, `tools`, `events`, `history` | a strategy, its models, its market data |
| `start`, `startup`, `live_loop`, `live_sync`, `cloud`, `records`, `metrics`, `local_run` | live runs |
| `backtest` | runs on past market data |
| `hyperparameters`, `hyper_config` | sweeps |
| `telemetry`, `snapshot`, `variables`, `detail`, `tui` | what is shown of a run |

What the library calls in other crates stands behind functions marked `external_body`; their
comments say what is believed of each call.
