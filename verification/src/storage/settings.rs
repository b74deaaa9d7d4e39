//! Persisted user-tunable settings (presets, brightness, time zone).

use vstd::prelude::*;

use crate::pomodoro::presets::{default_presets, default_presets_spec, Preset};

use super::codec::{
    copy_prefix, from_le16_at, from_le64_at, le16, le64, lemma_i16_bits, lemma_i64_bits,
    lemma_le16_roundtrip, lemma_le64_roundtrip, push_u16, push_u64, read_u16, read_u64,
};
use super::nvs::{
    alternate_spec, encode_slot, alternate_offset, lemma_save_then_load, load_spec, padded_len,
    slot_bytes, slot_image, slots_apart, write_slot_spec, LoadedRecord, Record, StorageError,
    HEADER_LEN, MAX_PAYLOAD, SETTINGS_OFFSET_A, SETTINGS_OFFSET_B,
};

verus! {

/// Encoded payload layout (24 bytes):
///
/// ```text
///   0..2    preset0.work_min   (u16 LE)
///   2..4    preset0.rest_min   (u16 LE)
///   4..6    preset1.work_min
///   6..8    preset1.rest_min
///   8..10   preset2.work_min
///   10..12  preset2.rest_min
///   12      brightness          (u8)
///   13      reserved            (0xFF)
///   14..16  tz_offset_min       (i16 LE)
///   16..24  last_seen_unix      (i64 LE)
/// ```
pub const ENCODED_LEN: usize = 24;

#[derive(Clone, Copy, Debug, PartialEq, Eq)]
pub struct Settings {
    pub presets: [Preset; 3],
    pub brightness: u8,
    pub tz_offset_min: i16,
    /// Last unix timestamp we managed to observe. Used as the starting clock
    /// when NTP is unavailable so the device doesn't snap back to the build
    /// date after every cold boot.
    pub last_seen_unix: i64,
}

impl View for Settings {
    type V = Settings;

    open spec fn view(&self) -> Settings {
        *self
    }
}

/// The factory settings as a value.
pub open spec fn default_settings() -> Settings {
    Settings {
        presets: default_presets_spec(),
        brightness: 64,
        tz_offset_min: 0,
        last_seen_unix: 0,
    }
}

/// The 24 payload bytes that stand for `s`.
pub open spec fn settings_bytes(s: Settings) -> Seq<u8> {
    le16(s.presets[0].work_min) + le16(s.presets[0].rest_min) + le16(s.presets[1].work_min) + le16(
        s.presets[1].rest_min,
    ) + le16(s.presets[2].work_min) + le16(s.presets[2].rest_min) + seq![
        s.brightness,
        0xFFu8,
    ] + le16(s.tz_offset_min as u16) + le64(s.last_seen_unix as u64)
}

/// The preset stored at byte `at` of a settings payload.
pub open spec fn preset_at(p: Seq<u8>, at: int) -> Preset {
    Preset { work_min: from_le16_at(p, at), rest_min: from_le16_at(p, at + 2) }
}

/// The settings a payload stands for: any 24 bytes do, nothing else does.
pub open spec fn settings_from_bytes(p: Seq<u8>) -> Option<Settings> {
    if p.len() != ENCODED_LEN {
        None
    } else {
        Some(
            Settings {
                presets: [preset_at(p, 0), preset_at(p, 4), preset_at(p, 8)],
                brightness: p[12],
                tz_offset_min: from_le16_at(p, 14) as i16,
                last_seen_unix: from_le64_at(p, 16) as i64,
            },
        )
    }
}

impl Settings {
    pub fn defaults() -> (s: Self)
        ensures
            s == default_settings(),
    {
        Self { presets: default_presets(), brightness: 64, tz_offset_min: 0, last_seen_unix: 0 }
    }

    /// The settings to run with after reading both flash slots: the freshest
    /// valid copy, or [`Settings::defaults`] if neither slot is usable (first
    /// boot, corrupted flash, etc.), together with the bookkeeping for the
    /// next save.
    pub fn from_loaded(loaded: Option<LoadedRecord<Settings>>) -> (r: (Self, SettingsStore))
        ensures
            match loaded {
                Some(l) => {
                    &&& r.0 == l.record
                    &&& r.1@.seq == l.seq
                    &&& r.1@.last_offset == Some(l.from_offset)
                },
                None => {
                    &&& r.0 == default_settings()
                    &&& r.1@.seq == 0
                    &&& r.1@.last_offset is None
                },
            },
    {
        match loaded {
            Some(LoadedRecord { record, seq, from_offset }) => (
                record,
                SettingsStore { seq, last_offset: Some(from_offset) },
            ),
            None => (Self::defaults(), SettingsStore { seq: 0, last_offset: None }),
        }
    }
}

/// Sequence number and slot of the copy last written or read.
pub struct StoreView {
    pub seq: u64,
    pub last_offset: Option<u32>,
}

/// A save to carry out: write `bytes` at `offset` (after erasing that
/// sector); the copy carries sequence number `seq`.
pub struct PlannedWrite {
    pub offset: u32,
    pub seq: u64,
    pub bytes: Vec<u8>,
}

/// Bookkeeping for atomic A/B writes. Returned from [`Settings::from_loaded`]
/// and consulted for every save.
pub struct SettingsStore {
    seq: u64,
    last_offset: Option<u32>,
}

impl View for SettingsStore {
    type V = StoreView;

    closed spec fn view(&self) -> StoreView {
        StoreView { seq: self.seq, last_offset: self.last_offset }
    }
}

impl SettingsStore {
    /// What saving `settings` writes: the slot that was not used last, the
    /// next sequence number (wrapping), and the slot image.
    pub fn plan_save(&self, settings: &Settings, write_size: usize) -> (r: Result<PlannedWrite, StorageError>)
        requires
            padded_len(HEADER_LEN + ENCODED_LEN, write_size) <= MAX_PAYLOAD + HEADER_LEN,
        ensures
            r matches Ok(w) && w.offset == alternate_spec(
                SETTINGS_OFFSET_A,
                SETTINGS_OFFSET_B,
                self@.last_offset,
            ) && w.seq == self@.seq.wrapping_add(1) && w.bytes@ == slot_image::<Settings>(
                *settings,
                w.seq,
                write_size,
            ),
    {
        let next_seq = self.seq.wrapping_add(1);
        let target = alternate_offset(SETTINGS_OFFSET_A, SETTINGS_OFFSET_B, self.last_offset);
        match encode_slot(settings, next_seq, write_size) {
            Ok(bytes) => Ok(PlannedWrite { offset: target, seq: next_seq, bytes }),
            Err(e) => Err(e),
        }
    }

    /// Note that a planned write reached the flash.
    pub fn mark_written(&mut self, written: &PlannedWrite)
        ensures
            final(self)@.seq == written.seq,
            final(self)@.last_offset == Some(written.offset),
    {
        self.seq = written.seq;
        self.last_offset = Some(written.offset);
    }
}

proof fn lemma_settings_bytes_len(s: Settings)
    ensures
        settings_bytes(s).len() == ENCODED_LEN,
{
}

impl Record for Settings {
    const MAGIC: [u8; 4] = [0x50, 0x4F, 0x53, 0x45];  // "POSE"

    const VERSION: u8 = 1;

    const PAYLOAD_MAX: usize = ENCODED_LEN;

    open spec fn encoding(v: Settings) -> Seq<u8> {
        settings_bytes(v)
    }

    open spec fn decoding(payload: Seq<u8>) -> Option<Settings> {
        settings_from_bytes(payload)
    }

    open spec fn encodable(v: Settings) -> bool {
        true
    }

    proof fn lemma_payload_max_fits() {
    }

    proof fn lemma_decode_encode(v: Settings) {
        let p = settings_bytes(v);
        assert(p.len() == ENCODED_LEN);
        assert(p.subrange(16, 24) =~= le64(v.last_seen_unix as u64));
        lemma_le64_roundtrip(v.last_seen_unix as u64, p, 16);
        lemma_i64_bits(v.last_seen_unix);
        lemma_i16_bits(v.tz_offset_min);
        lemma_le16_roundtrip(v.presets[0].work_min);
        lemma_le16_roundtrip(v.presets[0].rest_min);
        lemma_le16_roundtrip(v.presets[1].work_min);
        lemma_le16_roundtrip(v.presets[1].rest_min);
        lemma_le16_roundtrip(v.presets[2].work_min);
        lemma_le16_roundtrip(v.presets[2].rest_min);
        lemma_le16_roundtrip(v.tz_offset_min as u16);
        let d = settings_from_bytes(p).unwrap();
        assert(d.presets[0] == v.presets[0]);
        assert(d.presets[1] == v.presets[1]);
        assert(d.presets[2] == v.presets[2]);
        assert(d.presets =~= v.presets);
        assert(d == v);
    }

    fn encode(&self, out: &mut [u8]) -> (n: usize) {
        let mut bytes: Vec<u8> = Vec::new();
        push_u16(&mut bytes, self.presets[0].work_min);
        push_u16(&mut bytes, self.presets[0].rest_min);
        push_u16(&mut bytes, self.presets[1].work_min);
        push_u16(&mut bytes, self.presets[1].rest_min);
        push_u16(&mut bytes, self.presets[2].work_min);
        push_u16(&mut bytes, self.presets[2].rest_min);
        bytes.push(self.brightness);
        bytes.push(0xFF);
        push_u16(&mut bytes, self.tz_offset_min as u16);
        push_u64(&mut bytes, self.last_seen_unix as u64);
        assert(bytes@ =~= settings_bytes(*self));
        copy_prefix(out, &bytes);
        ENCODED_LEN
    }

    fn decode(payload: &[u8]) -> (r: Option<Self>) {
        if payload.len() != ENCODED_LEN {
            return None;
        }
        let presets = [
            Preset { work_min: read_u16(payload, 0), rest_min: read_u16(payload, 2) },
            Preset { work_min: read_u16(payload, 4), rest_min: read_u16(payload, 6) },
            Preset { work_min: read_u16(payload, 8), rest_min: read_u16(payload, 10) },
        ];
        let brightness = payload[12];
        let tz_offset_min = read_u16(payload, 14) as i16;
        let last_seen_unix = read_u64(payload, 16) as i64;
        let s = Self { presets, brightness, tz_offset_min, last_seen_unix };
        assert(s.presets =~= settings_from_bytes(payload@).unwrap().presets);
        Some(s)
    }
}


/// The payload of a settings record is exactly `ENCODED_LEN` bytes long, and
/// so is the buffer `encode` needs.
pub proof fn lemma_settings_payload_len(v: Settings)
    ensures
        <Settings as Record>::PAYLOAD_MAX == ENCODED_LEN,
        <Settings as Record>::VERSION == 1,
        <Settings as Record>::encoding(v).len() == ENCODED_LEN,
{
    lemma_settings_bytes_len(v);
}


/// Loading the settings from `flash` (giving `loaded`, and the store
/// bookkeeping `store` as [`Settings::from_loaded`] sets it up), then
/// carrying out the write [`SettingsStore::plan_save`] plans for `settings`:
/// loading again gives `settings` back, from the slot just written, and the
/// slot that was loaded from is left untouched, so a save that does not
/// complete leaves the last good copy (see `lemma_torn_save_keeps_loaded`).
/// Fails only when the stored sequence number is `u64::MAX`.
pub proof fn lemma_settings_save_then_load(
    flash: Seq<u8>,
    loaded: Option<LoadedRecord<Settings>>,
    store: StoreView,
    settings: Settings,
    write_size: usize,
)
    requires
        slots_apart(flash.len() as int, SETTINGS_OFFSET_A, SETTINGS_OFFSET_B),
        loaded == load_spec::<Settings>(flash, SETTINGS_OFFSET_A, SETTINGS_OFFSET_B),
        match loaded {
            Some(l) => store.seq == l.seq && store.last_offset == Some(l.from_offset),
            None => store.seq == 0 && store.last_offset is None,
        },
        store.seq < u64::MAX,
        padded_len(HEADER_LEN + ENCODED_LEN, write_size) <= MAX_PAYLOAD + HEADER_LEN,
    ensures
        ({
            let target = alternate_spec(SETTINGS_OFFSET_A, SETTINGS_OFFSET_B, store.last_offset);
            let seq = store.seq.wrapping_add(1);
            let saved = write_slot_spec(flash, target, slot_image::<Settings>(settings, seq, write_size));
            &&& load_spec::<Settings>(saved, SETTINGS_OFFSET_A, SETTINGS_OFFSET_B) == Some(
                LoadedRecord { record: settings, seq, from_offset: target },
            )
            &&& loaded matches Some(l) ==> target != l.from_offset && slot_bytes(saved, l.from_offset)
                == slot_bytes(flash, l.from_offset)
        }),
{
    lemma_settings_bytes_len(settings);
    assert(<Settings as Record>::MAGIC@[0] == 0x50u8);
    lemma_save_then_load::<Settings>(flash, SETTINGS_OFFSET_A, SETTINGS_OFFSET_B, settings, write_size);
}

} // verus!
