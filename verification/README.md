# tuxedo

Tools for the hardware of TUXEDO laptops: the `tailord` daemon, which
controls fans, LEDs and performance profiles and serves them over D-Bus, and
a stand-alone fan controller.

## Layout

- `src/` is the library, verified with Verus. It holds the decisions and data
  of the tools, each with a contract:
  - `tailord/`: fan curves and their normalization, the temperature history,
    the fan control step and its delay, profile names and paths, the
    performance and power supply state, LED profile bookkeeping;
  - `ioctl/`: what the values exchanged with the `/dev/tuxedo_io` device mean
    for Clevo and Uniwill hardware;
  - `sysfs/`: the contents of the sysfs files (number lists, CPU lists,
    keyboard states, LED devices, backlight and battery values);
  - `tuxedo_fancontrol/`: the stand-alone controller's configuration check,
    temperature averages and speed rules;
  - `text.rs`: the string operations the rest relies on.
- `app/` is the program around it: ioctl calls, sysfs and profile files,
  D-Bus, signals and the floating point parts of the color animation and of
  the stand-alone controller. `tuxedo` (or `tuxedo tailord`) runs the daemon,
  `tuxedo fancontrol` the stand-alone controller.
- `tests/` runs the library on concrete values.
