# tapo

TP-Link Tapo dimmer switches (S500D and the rest of the S5xxD line), driven locally over KLAP, the
protocol the switch speaks on port 80 to anything on the same network. Nothing here reaches
TP-Link's cloud, and the switch does not need to either.

One `light` proxy, dimmable 1–100. No continuous ramp: the switch fades on a schedule stored in the
device and has no "go up until I say stop", so `ramp_start` and `ramp_stop` say so rather than doing
nothing.

## Layout

`src/` is the library, verified with Verus: every function states what it returns or changes, and
Verus proves it. Of a fresh seed nothing can be said but that it is there or not, so whatever uses
one is stated for every seed and for none.

- `klap` is the handshake and the session; `http` is the framing for a raw connection.
- `dimmer` is what happens to a device that was adopted. `types` is what it carries, `steps` says
  what each step comes to, `driver` does it.
- `setup` is how a device comes to be adopted, laid out in the same way.
- `reading` is what a device says about itself; `host` is what the controller is asked to do.
- `codec`, `text` and `bytes` hold hexadecimal, base64, decimal numbers and the like.
- `laws` states what holds across calls: one request in flight, a command that reads back, a
  forgotten session that is rebuilt, a walk that adopts or skips every device.
- `outside` is what is taken on trust: the hashes, the cipher, the entropy and the JSON reader.

`app/` is the driver as the controller loads it, and only turns one kind of value into another. The
controller's own last step takes the devices alone, so there the reasons end.

## Two kinds of device: an account, and the dimmers behind it

The credentials a Tapo checks are a TP-Link **account**, not a per-device secret. A house with eight
dimmers has one account, so it is its own device (`tapo.account`) and every dimmer inherits from it.
Set up the account once, then browse it: everything that answers the discovery broadcast is logged
in to and added under the name it has in the Tapo app. A device that speaks an older protocol, is
unplugged, or is paired to a different account is left out rather than failing the run, and the last
step of the library's setup gives the reason for each.

## Session keys live in scratch

The handshake derives a key, an IV and a signing key, and they are kept, so a restart resumes the
session rather than shaking hands again. If the switch has forgotten it in the meantime, the driver
starts over and sends the request that found out again. A lost `off` is a light left on.
