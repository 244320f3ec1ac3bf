# cockpit_maintenance

Maintenance logic of the Cockpit Tools desktop program, verified with Verus.

- `src/webview2_maintenance.rs`: which WebView2 processes and lock files are cleared away when the
  program starts and ends. `src/data_dir.rs` finds the profile directory that they belong to.
- `src/custom_updater.rs`: synchronising the customised repository step by step, up to the report.
  `src/repo.rs` finds the repository, `src/run_step.rs` runs one command.
- `src/text.rs`, `src/command.rs`: text and command lines.
- `src/*_laws.rs`: what holds of these parts as a whole.
- `app/`: listing processes, starting commands, removing files, and the window.
