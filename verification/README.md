# tari_indexer

The decisions of a Tari Ootle indexer, written in Verus and proved against their contracts.

The indexer follows the network's shard groups, keeps the state it is asked to index, caches
substates fetched from validator committees and serves them over HTTP. What it decides along the
way lives in `src/`:

- `stream_order`, `sync_stream`: the ordering a state-sync stream must keep and what each message
  of the stream leads to; `shard_watermarks`: how far each shard is known to be synced.
- `update_routing`, `economics`, `watched`: where a synced transition goes, the XTR totals it
  moves, and which watched substates it touches.
- `substate_cache`: which cache entries a transition retires and whether a fetched entry may be
  written over what the cache holds.
- `committee`, `committee_round`: which validators serve a shard, and asking committees in turn.
- `lookup`, `event_filter`, `event_scan`, `utxo_paging`, `cbor`, `rate_limit`, `cli`: answering
  lookups, choosing events, paging UTXO updates, making CBOR representable as JSON, per-client
  limits and command-line overrides; `store_setup`: the network a store belongs to;
  `retention`: how long a stored transaction is kept; `event_rows`: reading stored events back;
  `substate_decoder`: decoding a substate's CBOR, with the fields it nests, and finding the
  substates it refers to.

`app/` holds the program around the library: argument handling, the configuration file, the
token-bucket limiter (which counts in floating point), and the conversions between the engine's
substates and CBOR values and JSON. `tests/` exercises the
library on concrete values.
