//! The decisions taken on every processing block: which channel layouts are
//! accepted, when the peak meters are worth updating, and what the loudness
//! meter shows after the estimator has been asked.
use vstd::prelude::*;

verus! {

/// Any symmetrical layout with at least one channel is accepted.
pub fn accepts_bus_config(num_input_channels: u32, num_output_channels: u32) -> (ok: bool)
    ensures
        ok == (num_input_channels == num_output_channels && num_input_channels > 0),
{
    num_input_channels == num_output_channels && num_input_channels > 0
}

/// The peak meters are updated only while someone is watching them, and never
/// from an empty block (whose mean amplitude is undefined).
pub fn peaks_due(editor_open: bool, num_samples: usize) -> (due: bool)
    ensures
        due == (editor_open && num_samples > 0),
{
    editor_open && num_samples > 0
}

/// The value the loudness meter shows once the estimator has answered: its
/// reading when it had one, otherwise the value already shown.
pub fn next_loudness<V: Copy>(current: V, measured: Option<V>) -> (shown: V)
    ensures
        shown == match measured {
            Some(v) => v,
            None => current,
        },
{
    match measured {
        Some(v) => v,
        None => current,
    }
}

} // verus!
