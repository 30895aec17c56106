# chatroom

A websocket chat room. `src/` is the verified library (Verus): the feed of
connected users and its laws, the per-socket decisions, the name check, the
request decisions and page rendering of the web front end, and the RFC code of an old form
page. `app/` is the actix-web server around it: routes, template files, static files,
actors and serialization. `tests/` runs the library on concrete values.
