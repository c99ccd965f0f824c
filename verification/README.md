# client_ui

Presentation rules of a game client's user interface, verified with Verus:
what each panel lists and in which order, which labels and numbers it
writes, which tone (selected, hovered, dimmed, warning) each element takes,
and how overlays are planned. Drawing is left to the caller.

- `src/` — the library. Every function carries a contract over `Seq<char>`
  texts and plain values; the modules follow the panels (crafting, stations,
  quest log, contract board, chat, bank, shop, altar, collection log, ...).
  General laws (stable ordering is a permutation, amount formatting round
  trips, the banner's phase cycle, the chat window's bounds, ...) are proof
  functions next to the code they speak of.
- `tests/` — concrete cases for the contracts and the laws.
- `app/` — the drawing side: colours for the tones, the banner timer and the
  other values that are fractions of seconds.
