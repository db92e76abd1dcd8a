# gittop

The notification rule engine and screen state of GitTop, a desktop client for GitHub
notifications, written in Verus with its behaviour stated in contracts and proved.

- `src/` — the verified library:
  - `calendar` — days of the week, sets of days, times of day, the local moment (chrono reads
    the clock and parses `hours:minutes`, behind trusted wrappers);
  - `text` — ASCII-case-insensitive comparison, blank text, character equality, reading a
    decimal `i32`;
  - `rules` — rule actions, account schedules, organisation and type rules, the rule set and
    its overview statistics;
  - `engine` — which rules match a notification, their ranking (Important first, then
    priority, then Hide > Silent > Show, stable), the decision (Important overrides
    everything; a Hide or Silent rule is never overridden by a Show, whatever the
    priorities), and its laws;
  - `trace_laws` — laws of the list of matching rules: independence of ASCII case, loose
    account matching, and what disabling one rule removes;
  - `rule_screen` — the rule engine screen as a state machine over its messages, reporting
    when the rules are to be saved;
  - `settings_screen` — the settings screen's tab, token and proxy forms;
  - `inspector` — finding a rule by identifier, and what the inspector says of an action;
  - `explain` — the rule explainer's winner, final action and row colours;
  - `visual` — the visual decisions for a notification card;
  - `labels` — label colours and text truncation of the details panel;
  - `theme`, `window_state` — the theme and window-hidden cells;
  - `seqs` — sequence facts used by the loops.
- `app/` — the unverified edge: the JSON rule file (serde, dirs), chrono conversions, the
  process-wide atomic cells, font scales, and the drivers that save rules, store proxy
  credentials, sign in with a token or change application settings when the library says so.
- `tests/` — tests run against the compiled library.
