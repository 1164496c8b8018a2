# matrix_rtc

The core of a MatrixRTC participant, verified with Verus.

A call in Matrix is a set of memberships: every participant publishes one, keeps it
alive, and hands the others a media key. This library decides what a participant
publishes and when, who counts as being in a session, whom a media key goes to and
when it is replaced, and which received keys are to be believed. It performs no
requests and keeps no time. Each step returns what is to be done, and the next step
takes what came of it.

## Layout

| Module | What it holds |
| --- | --- |
| `event`, `session`, `transport`, `wire`, `json` | member events, and their form on the wire |
| `slot`, `roster`, `manager` | rooms, slots, sessions, and who is in them |
| `join`, `own_membership`, `participation` | joining, staying and leaving |
| `encryption` | media keys: minting, handing out, rotating, receiving |
| `notification`, `reactions` | summoning a room, and the events of reactions |
| `compat` | two older dialects of Element Call |
| `bridge`, `delivery`, `commands` | what a host decides between its requests |
| `text`, `seqs`, `table` | strings, sequences, and a map with string keys |
| `random`, `encoding`, `clock` | the only places that call other crates |

`app/` runs the library on a `matrix_sdk::Client`.

## What is proved

Contracts speak of models: a JSON value is modelled by a `JsonView`, a member event
by what its content says, a key by its bytes. Functions state their result for every
input; where the clock is read or bytes are drawn, they state what holds of every
reading and every draw, and a function beside them takes the value as an argument.
Properties that span several functions stand as public proof functions
whose names begin with `law_`; among them are that

* our own key is never handed to ourselves, and whoever left loses it in bounded time,
* a key is only believed if it came from the device that published the membership,
* each index holds the key last accepted for it, and each change is signalled once,
* an unchanged roster costs nothing, and a rotation mints one key however many left,
* a refused delayed leave never fails a join, and no delayed leave is leaked,
* membership is replaced and not merged, and applying it twice says nothing new,
* what is sent in any dialect is read back as what was meant.

## What is trusted

Four functions call other crates: `random::random_bytes` (`rand_core`),
`encoding::base64_encode` and `encoding::base64_decode` (`base64`), and
`clock::now_ms` (`web-time`). Their contracts are believed.
