# chiral_client

A client for the Chiral computing service, written in Verus.

The service is reached over gRPC: every call sends one JSON text keyed by
the name of an endpoint, with the user's e-mail and authentication token as
metadata, and answers with a reply text and an error text. The user's files
live on an FTP server.

The library (`src/`) decides what is sent and what the answers mean; it is
verified:

- `api` builds the request texts of every endpoint, checks that the
  metadata can be sent, and reads the service's replies.
- `removal` is the recursive removal of a remote directory, as a plan that
  asks for one FTP command at a time; its laws show that nothing outside
  the requested directory is removed, that a directory is removed only
  after every entry of its listing has been probed, and that success means
  the requested directory itself is gone.
- `connection` opens an FTP session and changes its working directory,
  each as a plan with a law on its outcome over any run of replies; `ftp`
  and `file` are the two FTP clients (the first requires the user's
  directory, the second makes it), with a law on what a sequence of
  connections, closes and changes leaves of the session; `client` is one
  user's client.
- `text`, `remote_path`, `session` hold the string logic and the command
  and reply types; `json` and `metadata` declare what is used of
  `serde_json` and `tonic`.

`app/` carries the plans out: the gRPC transport with `tonic`, the FTP
connection with the `ftp` crate, files on disk, and the environment.
