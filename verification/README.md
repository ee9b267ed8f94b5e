# tunnel_server

The public side of a self-hosted tunnel. Agents inside a private network connect to the server over
QUIC; the server takes HTTP, HTTPS, TCP and UDP traffic from outside, finds the route, and passes it
to the agent of the route's node. A REST API and an event stream manage nodes, routes, credentials
and access rules.

- `src/` is the library, written and proved in Verus: the route tables and how they are brought up to
  date, the limits on logins, connections and UDP sessions, sessions and access tokens, access rules,
  certificates by server name, the reading and rewriting of HTTP heads, the reading of TLS client
  hellos, the control stream of an agent, and the rules of the API. Each function states in its
  contract what it does; what holds across functions is stated in public proof functions beside
  them. What the library takes from other crates stands behind small functions marked
  `external_body`, each with what is believed of it.
- `app/` is the program around it: sockets, the database, JSON, and `main`.
- `tests/` runs the library.

Times, random values, rows of the database and the outcome of password checks come into the library
as arguments, so that it is proved for every value of them.
