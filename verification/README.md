# url_shortener

A tiny URL shortener: long URLs in, short base-62 codes out, with a click
counter per link. The library under `src/` is verified with Verus; `app/`
is the HTTP server around it (axum on tokio).

- `src/code.rs`: base-62 short codes (`0-9`, `a-z`, `A-Z`); `encode` and the
  proofs that codes decode back to their number, are distinct and have no
  leading zeros.
- `src/text.rs`: whitespace trimming and the `http://` / `https://` check.
- `src/model.rs`: the abstract store (a sequence of links; link `i` has code
  `encode(i)`) and the laws of the operations.
- `src/store.rs`: `AppState`, the in-memory link store.
- `src/handlers.rs`: `shorten`, `redirect`, `stats` and `AppError`.
- `app/main.rs`: routes `POST /shorten`, `GET /{code}`, `GET /stats/{code}`;
  listens on the port in `PORT` (3000 by default).
