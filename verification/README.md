# scbuf

`scbuf` (sync circular buffer) is a circular buffer with a producing and a consuming
end, written in Verus. The ends are `Send` and `Sync` for items that can be sent, and
neither waits for the other.

```rust
let (mut prod_ep, mut cons_ep) = scbuf::new_scbuf(2);
assert_eq!(prod_ep.push('a'), None);
assert_eq!(cons_ep.pop(), Some('a'));
assert_eq!(cons_ep.pop(), None);
```

The two indices count items and wrap around at the end of `usize`. Only the producer
stores the write index and only the consumer the read index, so atomics are all that the
ends synchronise by. Each slot has a lock of its own to keep the code free of `unsafe`;
the indices see to it that no two threads ever want the same one. That is `law_ends_apart`
in `src/protocol.rs`, and it is why neither end waits for the other.

## Layout

- `src/endpoints.rs`: `new_scbuf`, `try_new_scbuf`, `ProdEnd`, `ConsEnd`.
- `src/cbuf.rs`: `new_pair`, `try_new_pair`, `CbufWriter`, `CbufReader`, which move one
  item at a time, and `Cbuf`, a buffer with a single owner.
- `src/ring.rs`: what the two ends do, over any memory. Over a memory with a known state
  it is proved that they keep to the protocol and what they do to the items.
- `src/memory.rs`: what a memory is, and one with a single owner.
- `src/shared.rs`: the memory that two threads reach. Nothing is known to the verifier
  of what its atomics and locks hold, so over it the contracts speak of what an end
  returns and of its own indices.
- `src/protocol.rs`: the steps of the two ends, and that items arrive in order however
  the steps interleave.
- `src/model.rs`: what the operations do to the items in a buffer.
- `src/index.rs`: how indices wrap around, and which capacities are supported.
- `app/`: constructors that panic where a buffer cannot be made.
