# x-sync

The X bookmark archive service: complete and incremental bookmark snapshots,
native folder authority, `SocialSource` revisions, linked-article capture,
Knowledge completion linkage, compliance takedowns, separately consented
bookmark write-back, and the Field Theory legacy transition.

## Layout

- `src/` is the verified library (`x_sync`). The service's rules stand there
  as functions with Verus contracts: the paged-run state machine that alone
  gives a snapshot absence authority, the incremental scan caps, the write-back
  admission gates, execution machine and provider request, the semantic digest
  of a source revision, URL canonicalization, the legacy CSV/JSONL/SQLite
  validators and import counts, the shadow comparison and the owner checklist.
  Laws that span calls are public proof functions (`lemma_*`). What the database
  decides through its own statements (upserts, superseding, row locks) stays
  with the SQL in `app/`.
- Calls into `sha2`, `chrono`, `reqwest::Url`, `serde_json` and `std::str` that
  compute on plain values (hashing, instants, URL parsing, reading a JSON
  document from bytes) stand behind small trusted wrappers whose doc comments
  say what their contracts claim. JSON text the service writes (digest
  documents, shadow reports) is written by verified code against its spec.
- `app/` is the service around the library: PostgreSQL transactions, the
  official HTTP adapters, budget reservations, event envelopes and file and
  SQLite reads. It hands plain values to the library and acts on what comes back.
- `tests/` exercises the library on concrete values.
