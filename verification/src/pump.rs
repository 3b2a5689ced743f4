//! The notification pump's per-event logic: map a notification's channel
//! identity to its family and channel index, gate on the streaming flag,
//! decode the payload and feed the reassembler.
//!
//! The transport layer runs the event loop and hands each notification's
//! identity and payload here; frames that come back go to the sink. An
//! unrecognized identity and a decode failure both discard the event and
//! leave the slates untouched; neither ever stops the pump.

use vstd::prelude::*;

use crate::decode::after_header;
use crate::decode::decoded_24_bit;
use crate::decode::parse_eeg_data;
use crate::decode::parse_ppg_data;
use crate::reassembly::eeg_step;
use crate::reassembly::ppg_step;
use crate::reassembly::ChannelChunks;
use crate::reassembly::DataType;

verus! {

/// The service identifier the device advertises.
pub const MUSE_SERVICE_ID: u128 = 0x0000fe8d_0000_1000_8000_00805f9b34fb;

/// The control endpoint's characteristic identifier.
pub const CONTROL_ID: u128 = 0x273e0001_4c4d_454d_96be_f03bac821358;

pub const EEG_TP9_ID: u128 = 0x273e0003_4c4d_454d_96be_f03bac821358;

pub const EEG_AF7_ID: u128 = 0x273e0004_4c4d_454d_96be_f03bac821358;

pub const EEG_AF8_ID: u128 = 0x273e0005_4c4d_454d_96be_f03bac821358;

pub const EEG_TP10_ID: u128 = 0x273e0006_4c4d_454d_96be_f03bac821358;

pub const EEG_AUX_ID: u128 = 0x273e0007_4c4d_454d_96be_f03bac821358;

pub const PPG_AMBIENT_ID: u128 = 0x273e000f_4c4d_454d_96be_f03bac821358;

pub const PPG_INFRARED_ID: u128 = 0x273e0010_4c4d_454d_96be_f03bac821358;

pub const PPG_RED_ID: u128 = 0x273e0011_4c4d_454d_96be_f03bac821358;

/// The two channel families.
#[derive(Debug, Clone, Copy, PartialEq, Eq, Structural)]
pub enum ChannelFamily {
    Eeg,
    Ppg,
}

/// The fixed mapping from a characteristic identifier to its family and
/// channel index within the family; an unmapped identifier is `None`.
pub open spec fn spec_classify(id: u128) -> Option<(ChannelFamily, usize)> {
    if id == EEG_TP9_ID {
        Some((ChannelFamily::Eeg, 0usize))
    } else if id == EEG_AF7_ID {
        Some((ChannelFamily::Eeg, 1usize))
    } else if id == EEG_AF8_ID {
        Some((ChannelFamily::Eeg, 2usize))
    } else if id == EEG_TP10_ID {
        Some((ChannelFamily::Eeg, 3usize))
    } else if id == EEG_AUX_ID {
        Some((ChannelFamily::Eeg, 4usize))
    } else if id == PPG_AMBIENT_ID {
        Some((ChannelFamily::Ppg, 0usize))
    } else if id == PPG_INFRARED_ID {
        Some((ChannelFamily::Ppg, 1usize))
    } else if id == PPG_RED_ID {
        Some((ChannelFamily::Ppg, 2usize))
    } else {
        None
    }
}

/// Map a characteristic identifier to its `(family, channel index)`.
pub fn classify_channel(id: u128) -> (r: Option<(ChannelFamily, usize)>)
    ensures
        r == spec_classify(id),
{
    if id == EEG_TP9_ID {
        Some((ChannelFamily::Eeg, 0))
    } else if id == EEG_AF7_ID {
        Some((ChannelFamily::Eeg, 1))
    } else if id == EEG_AF8_ID {
        Some((ChannelFamily::Eeg, 2))
    } else if id == EEG_TP10_ID {
        Some((ChannelFamily::Eeg, 3))
    } else if id == EEG_AUX_ID {
        Some((ChannelFamily::Eeg, 4))
    } else if id == PPG_AMBIENT_ID {
        Some((ChannelFamily::Ppg, 0))
    } else if id == PPG_INFRARED_ID {
        Some((ChannelFamily::Ppg, 1))
    } else if id == PPG_RED_ID {
        Some((ChannelFamily::Ppg, 2))
    } else {
        None
    }
}

/// What one notification does to the two slates and which frames it emits.
///
/// With the streaming gate off, or an unmapped identity, or a payload too
/// short for its header, the event is discarded: slates unchanged, nothing
/// emitted. Otherwise the payload is decoded by its family's rule and
/// written to its channel, emitting a full cycle's frames when the write
/// hits the family's last channel.
pub open spec fn pump_step(
    eeg: Seq<Seq<u8>>,
    ppg: Seq<Seq<u32>>,
    id: u128,
    payload: Seq<u8>,
    streaming: bool,
) -> (Seq<Seq<u8>>, Seq<Seq<u32>>, Seq<DataType>) {
    if !streaming {
        (eeg, ppg, Seq::<DataType>::empty())
    } else {
        match spec_classify(id) {
            None => (eeg, ppg, Seq::<DataType>::empty()),
            Some(fc) => {
                if payload.len() < 2 {
                    (eeg, ppg, Seq::<DataType>::empty())
                } else if fc.0 == ChannelFamily::Eeg {
                    let next = eeg_step(eeg, fc.1 as int, after_header(payload));
                    (next.0, ppg, next.1)
                } else {
                    let next = ppg_step(ppg, fc.1 as int, decoded_24_bit(after_header(payload)));
                    (eeg, next.0, next.1)
                }
            },
        }
    }
}

/// Handle one transport notification: gate, classify, decode, reassemble.
/// The new slates and the returned frames are exactly one `pump_step`.
pub fn process_notification(
    chunks: &mut ChannelChunks,
    id: u128,
    payload: &[u8],
    streaming: bool,
) -> (frames: Vec<DataType>)
    requires
        old(chunks).wf(),
    ensures
        final(chunks).wf(),
        (final(chunks).eeg_slate(), final(chunks).ppg_slate(), frames@) == pump_step(
            old(chunks).eeg_slate(),
            old(chunks).ppg_slate(),
            id,
            payload@,
            streaming,
        ),
{
    if !streaming {
        return Vec::new();
    }
    match classify_channel(id) {
        None => Vec::new(),
        Some((family, channel)) => match family {
            ChannelFamily::Eeg => match parse_eeg_data(payload) {
                Ok(samples) => chunks.write_eeg(channel, &samples),
                Err(_) => Vec::new(),
            },
            ChannelFamily::Ppg => match parse_ppg_data(payload) {
                Ok(samples) => chunks.write_ppg(channel, &samples),
                Err(_) => Vec::new(),
            },
        },
    }
}

} // verus!
