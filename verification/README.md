# Battery Health Keeper

A Linux desktop program that prolongs battery lifespan by setting an upper charge limit
through the kernel's `/sys/class/power_supply` tree.

- `src/` is the library, verified with Verus: language files, battery readings, threshold
  writes, the state behind the window, its texts and its icons.
- `app/` is the program around it: file access and the window.
- `tests/` runs the library on concrete values.

Writing charge thresholds usually needs a udev rule or elevated rights.
`BATTERY_HEALTH_KEEPER_LANG` forces the locale of the window.
