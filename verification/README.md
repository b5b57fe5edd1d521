# rkl

Networks of compose projects, volumes, images on disk and local DNS names for a container
runtime. `src/` decides everything that can be decided without touching the host; each of its
functions has a contract that Verus proves. `app/` reads and writes files, talks to sockets and
processes, and calls the library.

- `keymap`: a map that remembers the order of its keys
- `text`, `paths`: numerals, white space and Unix paths
- `network`: which networks a compose file defines, which service is in which of them, what
  the bridge plugin and netavark are told, how the DNS daemon is reached
- `volume`: creating, removing and listing volumes, and which of them containers refer to
- `removal`: removing several volumes, and pruning
- `state`: what the documents about a container say
- `image`: what kind of image a directory holds
- `dns`: names, the record store and the authority for local names

What the library takes over from other crates without proof stands in functions and types
marked `external_body`, each with a comment that says what is claimed of it:
`ipnetwork::Ipv4Network::new`, `ipnet::IpNet::new`, `hickory_proto::rr::LowerName::from_str`,
`chrono::Utc::now` with `to_rfc3339`, and `tabwriter::TabWriter`.

Volumes and networks are kept in the order in which they came in. Bridge interfaces are
numbered by that order.
