# bigbro

Run a command and find out which files it read and wrote, which
directories it listed and which it created.

`src/` is a Verus library that holds every decision of the ptrace based
tracker, with contracts:

- `syscall` — the traced system call families, the names of their calls
  (32-bit variants included) and the seccomp trace rules, with the law
  that each rule reports the family that owns its call name;
- `wait_status` — reading a `waitpid` status (through the `libc` macros)
  into the tracer's next step;
- `registers` — the arguments of a stopped call and strings read word by
  word out of the tracee;
- `trace` — per family: when to wait for the return value, which paths to
  read and how to resolve them, which file type check to make, and which
  access to record;
- `paths`, `realpath` — paths as byte strings, and the symlink resolving
  walk, a state machine whose questions go to the file system;
- `status`, `pathset` — the reported sets and how each access changes
  them (a written file is never reported as read; a deleted entity is not
  reported; a rename reports only the new names, of the renamed entry and
  of everything inside it);
- `command`, `environment`, `killer` — the command description: arguments,
  streams (and which end of a pipe the child gets), output file, and the
  child's environment.

`app/` does the process plumbing (fork, exec, ptrace, waitpid, seccomp,
threads) and asks the library at each step.
