# kaku_ai

The core of a terminal assistant that talks to a chat API and lets the model read and change files,
run commands and reach the web. It is written in Verus: every function has a contract, and the
contracts are proved.

The core does nothing by itself. A tool, a request or a run of the agent is a state machine: it says
what it waits for, as plain data, and goes on with what comes back. `app/` does what is asked for:
files, processes, the network, threads.

What is proved of the whole, beyond the contract of each function:

- While a tool call changes something, runs a command that is not known to be safe, or sends a
  request that is no `GET`, the user has approved of that very call
  (`agent::law_changes_are_approved`).
- The model is asked at most fifteen times in a run, and in a round that the user does not cancel
  every tool call is answered once and in order (`agent::law_rounds_are_limited`,
  `agent::law_calls_are_answered_once`).
- Tools and courses of requests end (`execute::law_tools_end`, `course::law_courses_end`).
- A relative path is read only inside the working directory, where both real paths could be found
  out (`execute::law_relative_paths_stay_inside`).
- A command that runs without asking is a pipeline of commands on an allowlist, and a pipeline made
  of two asks exactly when one of them does (`approval::law_allowlist`,
  `approval::law_joined_commands_ask`).
- Splitting a pipeline and joining its stages again changes nothing (`shell::law_stages_split_again`).
- What tells the working directory after a command is taken out of its output, and the output stays
  as it was (`report::law_mark_is_taken_away`).

What is believed without proof is what `serde_json`, `shlex`, `toml` and parts of `std` compute. Each
such item is marked `external_body` or `assume_specification` and says what is claimed of it.
