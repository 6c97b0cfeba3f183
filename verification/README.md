# mema, verified

A small memory-allocation library whose logic is proved with Verus.

- `src/util/align`: rounding addresses up to a power-of-two alignment
  (`align_up`, `checked_align_up` and their address-of-pointer forms), with
  laws on rounding (least multiple, idempotent, monotone, exact overflow).
- `src/bump.rs`: the bump allocator as a state machine over addresses, its
  abstract view `BumpView`, and the one-step laws.
- `src/bump_laws.rs`: laws over sequences of requests and returns
  (disjoint blocks, refusals persist, granted bytes fit the region, rewinds).
- `src/direct_os.rs`: the handle of the allocator that goes straight to the
  operating system.
- `app/`: the operating-system calls and the `GlobalAlloc` impls that put the
  verified allocators in place, with a spin lock around the bump allocator.
- `tests/`: the bump allocator's scenarios on concrete addresses.
