# thorgend_dsp

The voice logic of a GENDYN stochastic-synthesis instrument, verified with Verus.

`src/` is the verified library:

- `notes` — the polyphonic voice allocator: which voice a pressed key takes, which
  voice a released key frees or hands to a still-held key, the sustain pedal, and the
  MIDI events that drive all of it. Every operation is specified as a transition of
  `NotesState`.
- `note` — one voice: its key, its gain (as a function of velocity) and its envelope stage.
- `envelope` — the envelope stages and the stage that follows each step.
- `gendy` — the distribution selectors and the walk over the waveform's control points.
- `voices` — which voices are rendered.
- `time_text` — how a written time value splits into number and unit.
- `allocation_laws` — properties of the allocator that span its operations.
- `search` — first/last index searches used by the specifications.

`app/` holds the floating-point signal processing (oscillator, envelope ramps, LFO,
sample-and-hold, parameter mapping) and the plugin shell, which call into the library
for every decision.
