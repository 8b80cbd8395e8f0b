# sqtop

A terminal dashboard for Slurm clusters, with its logic verified by Verus.

- `src/` is the verified library: parsing of `squeue`, `sinfo`, `scontrol`
  and `sacct` output, job and node investigations, the jobs, partitions,
  history and health views, the detail screens and modals, responsive
  column allocation, column ordering, the settings reader and the job-action
  decisions. Every public function states what it returns in its contract;
  the laws that relate several functions are public proof functions
  (`lemma_*`).
- `app/` is the program around it: the command line, the terminal, running
  processes locally or over SSH, the configuration file, and the
  floating-point settings.
- `tests/` runs the library on concrete inputs.

Run `sqtop` with the Slurm commands (`squeue`, `sinfo`, `scontrol`,
`scancel`) on `PATH`; with `host` set under `[remote]` in
`~/.config/sqtop/config.toml` (or the file given with `--config`) they run
over SSH on that host.
