# SkyRust

Flight controller for an auto-stabilizing quadcopter on a Raspberry Pi Pico 2 W, flown over Wi-Fi
from a PC. The flight logic is a library that is verified with Verus; the firmware around it
drives the peripherals.

## The library, `src/`

| Module | What it holds |
|---|---|
| `bytes` | integers of the network and of the sensor |
| `protocol` | the 20-byte control packet |
| `flight` | setpoint, failsafe, control ticks, motor limits |
| `mixer` | the signs with which the PID terms go into the motors |
| `dshot` | DShot frames, and the pulse train that sends four at once |
| `imu` | bring-up, calibration and reading of the MPU-6050 |
| `line` | a line of log text in a `heapless::String` |
| `telemetry` | the records and lines of the serial log |
| `queue` | the queue of log records in an `embassy_sync` channel |
| `history` | what holds of every flight |

Public proof functions whose names begin with `law_` state what holds across calls: among them
that the motors stop when control packets stop, that a motor is never given a value outside its
limits, and that the pulses on a motor line make up exactly the frame that was meant.

What is taken on trust is in `line`, where four functions call `heapless`, and in `queue`, where
three functions call `embassy_sync`.

## The firmware, `app/`

Tasks, peripherals and the network, and the floating-point arithmetic of the attitude filter and
the PID terms.

The features in `Cargo.toml` are those of a build for the host, which type-checks all of it:
`embassy-executor` with `arch-std`, and `embassy-rp` with `_test`, which leaves out the stack
guard, whose registers `cortex-m` does not have in a host build. The library uses the standard library, so this build is
not one to flash; the board would need `arch-cortex-m`, no `_test`, and a `no_std` library.

`cyw43-firmware` carries the two files that the Wi-Fi chip is loaded with at start.

## Control protocol

One UDP datagram of 20 bytes, little endian: throttle (`u16`, 0 to 2000), pitch and roll (`i16`,
hundredths of a degree), yaw rate (`i16`, hundredths of a degree per second), then the gains kp,
ki and kd (`f32`).
