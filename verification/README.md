# s3-kit

A toolkit for S3 servers, built around an in-memory object store.

- `src/` is the library, verified with Verus:
  - `s3_btree`: the object store and the rules of its requests (reads with
    byte ranges and entity tags, writes with storage-class and body checks,
    deletes), with laws relating them;
  - `s3_replication`: the rule that picks which replica's answer to a head
    request is passed on;
  - `vec_byte_stream`: a stream of byte chunks that keeps its remaining length;
  - `cli`: the server's options and their check;
  - `error`, `fuzzing`: shared types.
- `app/` is the server program: the S3 protocol services, request and body
  plumbing, logging set-up and the network loop.
- `tests/` exercises the library on concrete values.
