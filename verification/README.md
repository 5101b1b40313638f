# vrc_api

The request handling of a small proxy between clients and the VRChat API,
verified with Verus.

- `src/` is the verified library: reading the colon-separated client
  requests (`request`), signing in (`auth`), the friend list (`friends`),
  profiles and their lookup (`user`), what is kept after signing in
  (`session`) and instance answers (`instance`), over the text model in
  `text`.
- `app/` is the HTTP service around it (axum, reqwest, tokio): routes,
  calls to VRChat, the saved settings file and the JSON forms.
- `tests/` runs the library on concrete values.

Choices the library makes where the service's behaviour is not fixed
elsewhere:

- VRC+ supporters are told by the `system_supporter` tag, both for the
  friend list picture and for the " VRC+" rank suffix.
- Requests with a fixed number of fields take the next colon-separated
  pieces and ignore any after them; the instance request splits at the
  first colon only.
- A client's credentials are looked up against the saved settings
  (`matched_token`).
- VRChat's sanitizing of the text users write (look-alike characters in
  place of some ASCII symbols) is undone in the bio, display name and
  status description of fetched profiles and of the client's own profile,
  by the character table in `sanitize`; kept friends are answered as kept.
