# titan-wipe

Storage sanitization: hardware erase and overwrite algorithms, guardrails
against wiping the wrong device, verification by reading back, and an audit
certificate for every run.

- `src/` is the library, verified with Verus. It decides what is done to a
  device and in which order, and proves what follows from it: that a run keeps
  to the plan of its algorithm, that every byte of the device is overwritten in
  every pass, that a dry run writes nothing, that no option bypasses the
  guardrails, and that a certificate tells the truth of the device.
- `app/` is the program: the command line, the kernel's ioctls, sysfs and the
  mount table, progress bars, and the loop that performs what the library asks
  for.
- `tests/` runs the library on concrete values, with a device in memory.

What the proofs rest on besides Verus stands in `src/outside.rs`: the hash, the
random generator, the clock, UUIDs, and the two std functions that carry no
specification of their own.

## Consent

A wipe that writes starts only once the operator has typed the device's phrase,
`WIPE-` and the beginning of its serial number. `--force` waives this consent,
and only this: the boot drive check, the mount check and the privilege check
stand whatever the options. A dry run writes nothing and asks for no consent.

## Exit codes

| Code | Meaning |
|---|---|
| 0 | success |
| 1 | not root |
| 2 | error |
| 3 | verification failed |
