# payjoin-blackpill-test

Firmware for the WeAct STM32F411CEU6 Black Pill that exercises the `payjoin`
crate's BIP 77 `ShortId` (SHA256 → `ShortId` → bech32 → `ShortId`) and reports
the result on the PC13 LED: solid on for a pass, repeating bursts of five
blinks for a failure. Further images bring up a USB CDC serial link and run
payjoin harness roles over it.

Layout:

- `src/` — the verified library:
  - `gpio` — RCC/GPIO register arithmetic for the active-low LED;
  - `indicator` — LED schedules (blink bursts, failure blink, verdict);
  - `transport` — decisions of the polled USB serial transport;
  - `payjoin_probe` — mailbox `ShortId` derivation and the round-trip self-test;
  - `device` — USB identity of each image and the receiver's script check.
- `app/` — the firmware: volatile register access, USB bring-up, main loops.
- `tests/` — tests of the library.
