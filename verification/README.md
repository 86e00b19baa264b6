# pomo

A pomodoro timer plugin for zellij, with its logic verified by Verus.

- `src/timer.rs`: the phases and the countdown, anchored to a wall-clock
  deadline (milliseconds since the epoch) so that duplicate or missed timer
  events cannot change its pace; the laws about ticks are proved there.
- `src/command.rs`: the commands of the `pomo` pipe, read word by word with
  the same white space and number rules as `split_whitespace` and
  `str::parse::<usize>`.
- `src/plugin.rs`: the plugin's state machine. Each host event, pipe message
  and the initial load map a state to a new state, a list of effects for the
  host (subscribe, ask for permissions, arm a timer, hide or show the pane)
  and whether to redraw.
- `src/layout.rs`, `src/text.rs`: what the plugin draws, as positioned texts.
- `app/main.rs`: the zellij glue: it reads the clock, turns host events into
  library events, performs the effects and prints the texts. The progress
  bar's rounding is done there in floating point.
