# bitdmx

The logic of the BitDMX stage lighting controller, verified with Verus.

- `src/` — the verified library: DMX channels and their merge and preheat
  rules, channel groups and the fades they ask for, fixtures, switches and
  their JSON keys, the stage (switching on and off, fallback to the previous
  switch, chasers), the interface frame cache, the control protocol, the
  fixture description parser, the decisions of the control surface and of
  the fixture editor, and the asset archive.
- `tests/` — tests of the library on concrete values.
- `app/` — the programs around it: the hardware interface thread, logging,
  UDP/TCP links, the fade runner (floating point curves via meval), and the
  files the programs read and write.
