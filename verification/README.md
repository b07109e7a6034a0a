# launch_notifier

A desktop notifier for upcoming rocket launches. Every minute it fetches the
upcoming-launch feed, decides for each launch whether a reminder is due (a day
before, an hour before, and when the rocket has left the pad), remembers which
reminders went out, and shows each one as a Windows toast.

- `src/` is the verified library (Verus): the launch-status table
  (`status`), the timestamp parser and calendar arithmetic (`time`), the record
  of sent reminders (`notifications`, over the string map in `string_map`), the
  per-launch decision (`planner`), image naming (`images`), text helpers
  (`text`), the feed's data types (`upcoming_launch`), and properties that hold
  across checks (`laws`).
- `app/` is the program around it: the network and file I/O, JSON
  (de)serialisation, the clock, the local-time display and the toasts.
- `tests/` runs the library on concrete values.

The launch records and the image list are kept as vectors of (key, value)
pairs with distinct keys (`string_map`), whose view is a `Map` keyed by the
keys' characters. vstd states `HashMap`'s behaviour only for key types that
obey its key model, which it asserts for integers and `bool` but not for
`String`.
