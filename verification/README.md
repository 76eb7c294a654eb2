# giss: Git over SSH, verified core

A self-hosted Git repository manager that works entirely over SSH: per-user
access control, repository namespaces, and a terminal browser. The logic is
written in Verus and proved against its contracts; the programs around it
only read and write files, run `ssh` and `git`, and draw the terminal
(turning the library's coloured text into terminal styles).

## Layout

- `src/` — the verified library:
  - `text.rs`: the string operations the rest relies on (`trim`,
    `split_whitespace`, `lines`, `splitn`, ...), specified over `Seq<char>`.
  - `validate.rs`: repository/user names and SSH public keys.
  - `acl.rs`: the access control list, with the laws of grant, revoke and
    removal.
  - `shell.rs`: the restricted shell: how a command sent over SSH is read,
    and whether the user may run it.
  - `keys.rs`: key files and the `authorized_keys` lines that force the
    shell.
  - `client.rs`: the commands the client sends; `protocol.rs` proves that
    the shell reads them back as meant.
  - `browser.rs`: entries, commits and the replies of the server as the
    browser reads them.
  - `navigator.rs`: the browser's state machine: keys, selections,
    previews, caches.
  - `highlight.rs`: syntax highlighting of fetched text through syntect,
    behind one trusted wrapper.
- `app/` — the programs `gism` (server), `giss` (client) and `gistui`
  (terminal browser), chosen by the name the binary is started under.
- `tests/` — tests of the library on concrete values.
