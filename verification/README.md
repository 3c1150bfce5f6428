# mmail_core

The core of MMail, a mail client for IMAP: the protocol, the local index, the
synchronisation of folders, and moves between accounts that lose no message.

`src/` is the library. Each function states what it returns or changes over a
mathematical model, and Verus proves it; what holds across functions is stated as
proof functions named `loi_…`. The library does no input or output: a session, a
synchronisation, a move or a worker is a value that is handed what came in and hands
out what is to be done next.

- `texte`, `nombre`, `dates`, `utf7`, `ensembles`, `chemins`: texts, numbers, dates,
  folder names, sets of UIDs, paths.
- `protocole`, `flux`, `imap`: the grammar of the answers, reading them from a stream,
  a session.
- `courrier`, `index`, `html`: a raw message, its line in the index, its body as text.
- `tables`, `magasin`, `coherence`, `favoris`, `schema`: the local index, its
  operations, what they keep, the list of the favourites, the stored schema.
- `synchro`, `deplacement`: one folder brought up to date; moves within an account and
  between accounts, and how an interrupted one resumes.
- `commande`, `tache`, `travail`: the requests of the interface, each of them carried
  out, the worker of an account.
- `annuaire`, `json`, `boite`: what is held by account, what is shown, the object that
  the interface drives.

`app/` is what surrounds it: sockets and TLS, the SQLite file, threads, files and the
objects of the Qt interface. `tests/` runs the library.
