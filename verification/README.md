# vault_core

The state layer of a client for client-side encrypted folders ("repositories")
kept in a cloud storage, written in Verus and proved against its contracts.

The library holds one `store::State` with the remote file trees, the files of
repositories with their decrypted names, and the views that the user interface
shows: browsers, folder pickers, file details, the move dialog, repository
creation and configuration backups. Mutations change the state and announce
what changed through `common::Notify`; selectors read it.

## Layout

- `src/` — the verified library, one module per part of the state, each with
  `state`, `selectors` and `mutations` (and `errors` where it has some).
- `tests/` — tests of the library on concrete values.
- `app/` — serde forms of option types, `std::error::Error` forms of
  errors, and the loop that runs a save of edited content against the
  platform's dialogs and uploads, for code around the library.

## What the library takes as input

Cryptography stays outside the library. Where a mutation needs what a
repository's cipher makes of names, paths, sizes or tags, it takes those
results as arguments (for example `repo_files::mutations::decrypt_file`,
`repo_files_browsers::mutations::RepoFilesBrowserDecryption`, and the table of
`repo_files::state::FileDecryption` by remote file id that
`repo_files::mutations::handle_repos_mutation` and
`handle_remote_files_mutation` read), and its contract says what it builds
from each of them. In the same way `repo_files_tags::mutations::decrypt_tags`
takes the decoded tags.

The calls into other crates (lower-casing, decimal and debug forms, MD5
digests, hex encoding and decoding, natural ordering of names, UTC calendar
dates) are made by small
wrappers whose contracts say what the rest of the library relies on.
