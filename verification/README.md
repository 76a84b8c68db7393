# GMF – Get My File

GMF fetches a file from a remote host by way of an object store: the remote side cuts the
file into chunks, encrypts each under a key of its own and uploads it; the client is told
the key, fetches the chunk, opens it, deletes it from the store and writes it where it
belongs. A download that was broken off goes on with the chunks that are missing.

The library under `src/` is written in Verus: every function states what it returns or
changes, and the statements are proved. What is promised of the whole stands as proof
functions whose names start with `law_`.

| Module | What it holds |
| ------ | ------------- |
| `text`, `number`, `path` | Text, numbers and file names |
| `outside` | The calls into other crates, each with a contract that is believed |
| `chunk`, `r2` | Encrypted chunks, manifests, and putting a file together |
| `common` | Messages, the bitmap of done chunks, the bucket, sizes and places |
| `remote` | The remote side: looking at a file, uploading its chunks, the HTTP service |
| `client` | The client: its connection, its answers, the download, what it shows |
| `cloudflare` | Installing the worker at Cloudflare |
| `shell` | Work on the remote host with `ssh`, `scp`, `openssl` and `s5cmd` |
| `assets` | The source text that packs programs into the client |

`app/` holds the programs around the library: files, network, terminal and processes.
`tests/` runs the library on concrete values.
