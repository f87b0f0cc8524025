# qpwgraph

The rules of a desktop patchbay for audio, video and MIDI, verified with Verus:
what the graph is, which connections are allowed and where they are made, how
effects, recorders, a relay to a phone and video filters are put into it, and
what the window makes of all that.

- `src/` is the library. Every function in it is verified; the few calls into
  outside crates (`serde_json`, `ashpd`, parts of `std`) stand behind small
  trusted items whose doc comments say what is believed of them.
- `tests/` runs the library on concrete values.
- `app/` is the program around it: arguments, files, the PipeWire daemon, the
  desktop's capture portal, and arithmetic on floating point numbers.

Floating point numbers appear in `src/` by their bit patterns only: they are
compared, held in a range and passed on there, and computed with in `app/`.

Where to start reading:

| Topic | Modules |
|---|---|
| the graph | `ids`, `model`, `graph`, `insertion`, `merge` |
| the daemon's registry | `registry`, `roundtrip`, `publication`, `snapshot`, `metering`, `streams`, `audio_controls`, `blocking` |
| several backends at once | `composite`, `drivers`, `demo` |
| effects | `effect_model`, `effect_callback`, `effect_request`, `demo_effects`, `native_effects` |
| recorders | `recorder`, `recorder_buffer`, `demo_recorders` |
| the relay | `relay_ports`, `relay_playback`, `relay_local`, `relay_route`, `relay_endpoints`, `relay_requests`, `relay_callback` |
| screen capture | `screencast`, `portal_session` |
| video | `video_spec`, `video_frames`, `video_bridge`, `video_board`, `video_connect`, `video_inject`, `video_session`, `video_names` |
| the window | `events`, `ui_actions`, `status`, `selection`, `rows`, `window`, `gallery`, `saved_effects`, `settings`, `configuration` |

What holds of a module as a whole is stated by its laws: public proof functions
named `law_...`.
