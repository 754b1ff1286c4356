# NASMirror engine

The rules behind NASMirror, a Windows app that mirrors folders to a NAS or a
drive with robocopy or restic, written in Verus and proved against their
contracts.

- `src/` is the verified library:
  - `engine/job.rs`: the course of a job as a state machine (validate the
    paths, wake the NAS, connect its share, check the source, then scan and
    copy with robocopy or back up with restic), with the laws every run keeps;
  - `engine/mod.rs`: path normalisation and the source/destination checks;
  - `engine/robocopy.rs`, `engine/restic.rs`: what each tool is asked and how
    its output is read;
  - `engine/netuse.rs`, `engine/wol.rs`: share connections and Wake-on-LAN;
  - `engine/console.rs`: decoding console output;
  - `history.rs`, `profiles.rs`, `commands.rs`, `headless.rs`: the run
    history, the saved jobs, the one-job-at-a-time registry and the
    unattended mode's exit codes;
  - `text.rs`: the character-level helpers the parsers share.
- `app/` is the program around it: the command line, processes, files, the
  network and the Win32 calls. It performs what the library asks for and
  hands back what happened.
- `tests/` runs the library on concrete cases.
