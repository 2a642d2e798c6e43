# wtui

A desktop app to manage Git worktrees, with its decisions verified by Verus.

- Add and save Git repositories.
- List the worktrees of each repository, with their branch, uncommitted and ignored
  files, upstream branch, and how far they are ahead of it and behind it.
- Create a branch and a worktree for it beside the repository.
- Remove a worktree, with a warning before a forced removal.
- Show the diff of a worktree against the base of its GitHub pull request, its
  upstream branch, or the default branch of a remote.
- View the selected worktree's GitHub pull request and open it in your browser.
- Remove a worktree for a merged pull request and delete its local branch.

The list of repositories is saved as `wtui/repositories.json` in the configuration
directory of the platform. Git has to be in `PATH`, and `xdg-open` to open a browser.
The GitHub CLI (`gh`) is asked for pull requests: their base, their title and address,
and whether they were merged. Nothing fails where it has no answer.

## Layout

- `src/` is the verified library. An operation, such as adding a worktree, is a
  function of the answers that the outside world has given so far: it returns the
  next request or its result. `update` turns a message into a new state and the work
  to start, and `view` turns a state into all that the window shows. The modules
  `*_laws` state and prove what holds across functions.
- `app/` is the program around it: it runs commands, reads and writes files, and draws
  the window with iced.
- `tests/` runs the library on concrete values.
