# ki_client_gui

The client side of a voice and text chat, for a handful of friends who play
together: what is decided in it, verified with Verus.

`src/` is the library. Nothing in it draws, reads a disk, opens a socket or
listens to a microphone. Each module takes plain values, among them the time and
whatever is left to chance, and returns what to do. Its contracts say exactly
what comes out, and the functions named `loi_…` state what holds across several
of them.

| Modules | What they decide |
| --- | --- |
| `session`, `reprise`, `reception`, `net` | connecting, losing a connection and taking it up again, each message of the server, the life of the voice engine |
| `roster`, `vocal`, `fil`, `menus`, `accueil` | who is there, who may talk, what is read, what a click does |
| `admin`, `brouillons`, `carnet`, `reglages` | administration, drafts, the book of servers, the settings |
| `markup`, `affichage`, `medias`, `photos`, `rangs` | messages, labels, dates, shared files, pictures, icons |
| `porte_ui` | web doors: guests who knock, and what can be done with them |
| `partage`, `visionnage`, `scellement` | sharing a screen and watching one |
| `ptt`, `raccourci`, `overlay`, `perf`, `secours`, `diagnostic` | keys, the overlay, measures, crashes, diagnostics |
| `protocole`, `texte`, `listes`, `horloge`, `empreinte`, `json` | plain types and the few tools that the rest is built from |

What is believed and not proved stands behind functions marked
`external_body` and behind `assume_specification`, each with a comment that says
what it claims of the code it calls: the cipher, the calendar, JSON, the clock
and Unicode's tables.

`app/` is the program around the library: the window, the disk, HTTP, the
keyboard thread. The wire, the sound card and the screen are handed to it
through the traits of `app/ports.rs`. `tests/` runs the library.
