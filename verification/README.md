# majit

The part of a meta-tracing JIT that can be reasoned about, written in Verus:

- an interpreter's source is lowered to statements of a JitCode builder, together
  with a description of what each statement reads, writes and jumps to
  (`lowerer`, `lower_*`, `calls`, `dispatch`, `fetch`, `extended_arg`, `body`);
- the registers that are alive at each live marker are worked out from the
  descriptions (`liveness`, `markers`, `paths`);
- call policies, their bytes and what is decided from them (`policy`,
  `policy_bytes`, `names`, `companion`, `driver`);
- fail descriptors with their bridges, call descriptors, and boxes with their
  forwarding (`guard`, `call_descr`, `boxes`).

`lower_spec` gives the meaning of lowering as functions on a model of its state;
the methods of `Lowerer` are proved to follow it. What lowering keeps is stated in
`growth`, `growth_forms`, `scope` and `scope_forms`; what liveness means, in
`paths`; what becomes of live markers, in `marker_laws`; what a dispatch chain does
when it runs, in `dispatch_code` and `dispatch_laws`, and what a `match`
does, in `match_laws`.

The library reads trees of its own (`ast`) and hands out statements (`ops`).
`app/` turns parsed Rust into such trees and prints statements as tokens.
