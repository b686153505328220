# slayerfs

A verified library for a distributed file system and the client and server parts of the
key-value service that it can keep its metadata in.

- `src/text.rs`: texts, decimal numbers, paths as lists of names.
- `src/rpc`: endpoints and IP addresses.
- `src/ctl`: the diagnosis of a cluster.
- `src/xline`: the client of the key-value service: watches, leases, ranges of keys.
- `src/server`: the routing of connections, the registration of servers, what is served.
- `src/meta`: metadata: types, configuration, caches, the caching client, the stores in a
  database (`database`) and in the key-value service (`etcd`), and the messages between a
  metadata server and its clients (`remote`).
- `src/vfs`: files and directories by path and by inode.
- `src/fuse`: what the kernel is told.

An operation that alternates between requests and decisions is a value with a state: `request`
says what it waits for and `resume` takes the reply. Contracts speak of the state and of the
reply; laws say what a whole run does to a store that answers as it should.

`app` holds the program around the library: it performs the requests.
