use ulanzi_pomodoro::pomodoro::Preset;
use ulanzi_pomodoro::storage::nvs::{
    alternate_offset, crc32, decode_slot, encode_slot, parse_header, pick_latest, LoadedRecord,
    Record, SlotHeader, StorageError, HEADER_LEN,
};
use ulanzi_pomodoro::storage::settings::{Settings, ENCODED_LEN as SETTINGS_LEN};
use ulanzi_pomodoro::storage::stats::{DayStats, Stats, ENCODED_LEN, MAX_STATS_DAYS};
use ulanzi_pomodoro::storage::{SETTINGS_OFFSET_A, SETTINGS_OFFSET_B, STATS_OFFSET_A, STATS_OFFSET_B};

#[test]
fn crc32_known_vector() {
    // "123456789" → 0xCBF43926 (well-known CRC-32 test vector).
    let crc = crc32(b"", b"123456789");
    assert_eq!(crc, 0xCBF4_3926);
}

#[test]
fn crc32_split_does_not_matter() {
    assert_eq!(crc32(b"1234", b"56789"), 0xCBF4_3926);
    assert_eq!(crc32(b"123456789", b""), 0xCBF4_3926);
    assert_eq!(crc32(b"", b""), 0);
}

#[test]
fn settings_encode_decode_roundtrip() {
    let s = Settings {
        presets: [Preset::new(25, 5), Preset::new(50, 10), Preset::new(90, 20)],
        brightness: 128,
        tz_offset_min: 180,
        last_seen_unix: 1_761_500_000,
    };
    let mut buf = [0u8; 24];
    let len = s.encode(&mut buf);
    assert_eq!(len, 24);
    let back = Settings::decode(&buf).unwrap();
    assert_eq!(s, back);
}

#[test]
fn settings_layout_and_negative_fields() {
    let s = Settings {
        presets: [Preset::new(0x0102, 3), Preset::new(4, 5), Preset::new(6, 7)],
        brightness: 9,
        tz_offset_min: -240,
        last_seen_unix: -2,
    };
    let mut buf = [0xAAu8; 30];
    assert_eq!(s.encode(&mut buf), SETTINGS_LEN);
    assert_eq!(&buf[0..4], &[0x02, 0x01, 3, 0]);
    assert_eq!(buf[12], 9);
    assert_eq!(buf[13], 0xFF);
    assert_eq!(&buf[14..16], &(-240i16).to_le_bytes());
    assert_eq!(&buf[16..24], &(-2i64).to_le_bytes());
    // Bytes past the payload are left alone.
    assert_eq!(&buf[24..], &[0xAA; 6]);
    assert_eq!(Settings::decode(&buf[..24]), Some(s));
    assert_eq!(Settings::decode(&buf[..23]), None);
}

#[test]
fn settings_defaults_are_factory_values() {
    let d = Settings::defaults();
    assert_eq!(d.presets, [Preset::new(25, 5), Preset::new(50, 10), Preset::new(90, 20)]);
    assert_eq!(d.brightness, 64);
    assert_eq!(d.tz_offset_min, 0);
    assert_eq!(d.last_seen_unix, 0);
    let (s, _store) = Settings::from_loaded(None);
    assert_eq!(s, d);
}

#[test]
fn ring_advances_on_new_day() {
    let mut s = Stats::empty();
    assert!(s.record_completed_work(20260510, 25));
    assert!(s.record_completed_work(20260510, 25));
    assert!(s.record_completed_work(20260511, 50));

    assert_eq!(s.head(), 1);
    assert_eq!(s.days()[0].date_yyyymmdd, 20260510);
    assert_eq!(s.days()[0].completed_pomodoros, 2);
    assert_eq!(s.days()[0].focus_minutes, 50);
    assert_eq!(s.days()[1].date_yyyymmdd, 20260511);
    assert_eq!(s.days()[1].completed_pomodoros, 1);
}

#[test]
fn last_n_pads_when_ring_is_short() {
    let mut s = Stats::empty();
    s.record_completed_work(20260510, 25);
    s.record_completed_work(20260511, 25);
    let week = s.last_n(7);
    // 5 leading zero days, then 510, then 511.
    assert_eq!(week[5].date_yyyymmdd, 20260510);
    assert_eq!(week[6].date_yyyymmdd, 20260511);
    for i in 0..5 {
        assert_eq!(week[i].date_yyyymmdd, 0);
    }
}

#[test]
fn stats_encode_decode_roundtrip() {
    let mut s = Stats::empty();
    s.record_completed_work(20260510, 25);
    s.record_completed_work(20260511, 50);
    let mut buf = [0u8; ENCODED_LEN];
    let n = s.encode(&mut buf);
    assert_eq!(n, ENCODED_LEN);
    let back = Stats::decode(&buf).unwrap();
    assert_eq!(s, back);
}

#[test]
fn stats_decode_rejects_bad_head_and_length() {
    let s = Stats::empty();
    let mut buf = [0u8; ENCODED_LEN];
    s.encode(&mut buf);
    assert_eq!(buf[256], 0);
    assert_eq!(buf[257], 1);
    assert_eq!(&buf[258..260], &[0xFF, 0xFF]);
    buf[256] = 32;
    assert!(Stats::decode(&buf).is_none());
    assert!(Stats::decode(&buf[..259]).is_none());
}

#[test]
fn record_ignores_zero_date_and_saturates() {
    let mut s = Stats::empty();
    assert!(!s.record_completed_work(0, 25));
    assert!(s.is_empty());
    assert!(s.record_completed_work(20260101, u16::MAX - 1));
    assert!(s.record_completed_work(20260101, 10));
    assert_eq!(s.current().focus_minutes, u16::MAX);
    assert_eq!(s.current().completed_pomodoros, 2);
}

#[test]
fn fully_saturated_day_reports_no_change() {
    let mut s = Stats::empty();
    assert!(s.record_completed_work(20260101, u16::MAX));
    for _ in 0..(u16::MAX as u32) {
        s.record_completed_work(20260101, 0);
    }
    assert_eq!(s.current().completed_pomodoros, u16::MAX);
    assert_eq!(s.current().focus_minutes, u16::MAX);
    // Nothing can grow any more: nothing to persist.
    assert!(!s.record_completed_work(20260101, 7));
    assert!(!s.record_completed_work(20260101, 0));
    assert_eq!(s.current().completed_pomodoros, u16::MAX);
    // A new day still changes the history.
    assert!(s.record_completed_work(20260102, 0));
}

#[test]
fn ring_wraps_after_32_days() {
    let mut s = Stats::empty();
    for d in 0..33u32 {
        s.record_completed_work(20260100 + d + 1, 1);
    }
    assert_eq!(s.head() as usize, 32 % MAX_STATS_DAYS);
    assert_eq!(s.days()[0].date_yyyymmdd, 20260133);
    assert_eq!(s.days()[1].date_yyyymmdd, 20260102);
    let all = s.last_n(100);
    assert_eq!(all[0].date_yyyymmdd, 20260102);
    assert_eq!(all[31].date_yyyymmdd, 20260133);
}

#[test]
fn today_and_best_effort() {
    let mut s = Stats::empty();
    assert_eq!(s.today(20260510), DayStats::default());
    // No clock at all: credited to the placeholder date.
    assert!(s.record_completed_work_best_effort(None, 25));
    assert_eq!(s.current().date_yyyymmdd, 1);
    assert!(s.record_completed_work_best_effort(Some(20260510), 30));
    assert_eq!(s.head(), 1);
    // Without a clock, keep adding to the current day.
    assert!(s.record_completed_work_best_effort(None, 5));
    assert_eq!(s.head(), 1);
    assert_eq!(s.today(20260510).focus_minutes, 35);
    assert_eq!(
        s.today(20260511),
        DayStats { date_yyyymmdd: 20260511, completed_pomodoros: 0, focus_minutes: 0 }
    );
    assert_eq!(s.today(0), DayStats::default());
}

#[test]
fn slot_roundtrip_and_errors() {
    let mut stats = Stats::empty();
    stats.record_completed_work(20260510, 25);
    let image = encode_slot(&stats, 7, 4).unwrap();
    assert_eq!(image.len(), HEADER_LEN + ENCODED_LEN);
    assert_eq!(&image[0..4], b"POST");
    let header = &image[..HEADER_LEN];
    let hd = parse_header::<Stats>(header).unwrap();
    assert_eq!(hd.payload_len, ENCODED_LEN);
    assert_eq!(hd.seq, 7);
    let payload = &image[HEADER_LEN..HEADER_LEN + hd.payload_len];
    let (back, seq) = decode_slot::<Stats>(header, payload).unwrap();
    assert_eq!(back, stats);
    assert_eq!(seq, 7);

    // Wrong kind of record.
    assert!(matches!(parse_header::<Settings>(header), Err(StorageError::BadMagic)));
    // Blank sector.
    assert!(matches!(parse_header::<Stats>(&[0xFF; 20]), Err(StorageError::Empty)));
    // Newer schema.
    let mut h = header.to_vec();
    h[4] = 2;
    assert!(matches!(parse_header::<Stats>(&h), Err(StorageError::UnsupportedVersion(2))));
    // Announced payload longer than the schema.
    let mut h = header.to_vec();
    h[5] = 0x05;
    h[6] = 0x01;
    assert!(matches!(parse_header::<Stats>(&h), Err(StorageError::PayloadTooLong)));
    // Corrupted payload byte.
    let mut p = payload.to_vec();
    p[3] ^= 1;
    assert!(matches!(decode_slot::<Stats>(header, &p), Err(StorageError::CrcMismatch)));
}

#[test]
fn slot_image_is_padded_to_write_unit() {
    let s = Settings::defaults();
    let image = encode_slot(&s, 1, 16).unwrap();
    assert_eq!(image.len(), 48);
    assert!(image[44..].iter().all(|&b| b == 0xFF));
    assert_eq!(encode_slot(&s, 1, 0).unwrap().len(), 44);
    let hd = parse_header::<Settings>(&image[..20]).unwrap();
    assert_eq!(hd, SlotHeader { payload_len: 24, seq: 1, crc: hd.crc });
    assert_eq!(hd.crc, crc32(&image[..16], &image[20..44]));
}

#[test]
fn freshest_slot_wins() {
    let a = Some((Settings::defaults(), 5u64));
    let mut newer = Settings::defaults();
    newer.brightness = 200;
    let b = Some((newer, 6u64));
    let l = pick_latest(a, b, SETTINGS_OFFSET_A, SETTINGS_OFFSET_B).unwrap();
    assert_eq!(l.seq, 6);
    assert_eq!(l.record.brightness, 200);
    assert_eq!(l.from_offset, SETTINGS_OFFSET_B);
    // Tie goes to A.
    let l = pick_latest(Some((Settings::defaults(), 6)), b, 1, 2).unwrap();
    assert_eq!(l.from_offset, 1);
    assert!(pick_latest::<Settings>(None, None, 1, 2).is_none());
    assert_eq!(pick_latest(None, b, 1, 2).unwrap().from_offset, 2);
}

#[test]
fn writes_alternate_between_slots() {
    assert_eq!(alternate_offset(STATS_OFFSET_A, STATS_OFFSET_B, None), STATS_OFFSET_A);
    assert_eq!(alternate_offset(STATS_OFFSET_A, STATS_OFFSET_B, Some(STATS_OFFSET_A)), STATS_OFFSET_B);
    assert_eq!(alternate_offset(STATS_OFFSET_A, STATS_OFFSET_B, Some(STATS_OFFSET_B)), STATS_OFFSET_A);
    assert_eq!(alternate_offset(STATS_OFFSET_A, STATS_OFFSET_B, Some(0x1234)), STATS_OFFSET_A);
}

#[test]
fn store_plans_alternate_writes_with_growing_sequence() {
    let loaded = LoadedRecord { record: Settings::defaults(), seq: 41, from_offset: SETTINGS_OFFSET_A };
    let (settings, mut store) = Settings::from_loaded(Some(loaded));
    let plan = store.plan_save(&settings, 4).unwrap();
    assert_eq!(plan.offset, SETTINGS_OFFSET_B);
    assert_eq!(plan.seq, 42);
    store.mark_written(&plan);
    let plan2 = store.plan_save(&settings, 4).unwrap();
    assert_eq!(plan2.offset, SETTINGS_OFFSET_A);
    assert_eq!(plan2.seq, 43);
    let (decoded, seq) = decode_slot::<Settings>(&plan2.bytes[..20], &plan2.bytes[20..44]).unwrap();
    assert_eq!(decoded, settings);
    assert_eq!(seq, 43);

    let (stats, stats_store) = Stats::from_loaded(None);
    let plan = stats_store.plan_save(&stats, 4).unwrap();
    assert_eq!(plan.offset, STATS_OFFSET_A);
    assert_eq!(plan.seq, 1);
}

/// The settings slots of a simulated flash: slot A at index 0, slot B at
/// index `SLOT`.
const SLOT: usize = 0x1000;

fn flash_index(offset: u32) -> usize {
    (offset - SETTINGS_OFFSET_A) as usize
}

fn read_settings_slot(flash: &[u8], offset: u32) -> Option<(Settings, u64)> {
    let at = flash_index(offset);
    let header = &flash[at..at + HEADER_LEN];
    let hd = parse_header::<Settings>(header).ok()?;
    let payload = &flash[at + HEADER_LEN..at + HEADER_LEN + hd.payload_len];
    decode_slot::<Settings>(header, payload).ok()
}

fn load_settings(flash: &[u8]) -> (Settings, ulanzi_pomodoro::storage::settings::SettingsStore) {
    let a = read_settings_slot(flash, SETTINGS_OFFSET_A);
    let b = read_settings_slot(flash, SETTINGS_OFFSET_B);
    Settings::from_loaded(pick_latest(a, b, SETTINGS_OFFSET_A, SETTINGS_OFFSET_B))
}

fn write_settings_slot(flash: &mut [u8], offset: u32, bytes: &[u8]) {
    let at = flash_index(offset);
    flash[at..at + SLOT].fill(0xFF);
    flash[at..at + bytes.len()].copy_from_slice(bytes);
}

#[test]
fn save_then_load_on_simulated_flash_and_torn_write_keeps_last_copy() {
    let mut flash = vec![0xFFu8; 2 * SLOT];
    assert_eq!(SETTINGS_OFFSET_B - SETTINGS_OFFSET_A, SLOT as u32);

    // First boot: defaults, first save goes to A.
    let (mut settings, mut store) = load_settings(&flash);
    assert_eq!(settings, Settings::defaults());
    settings.brightness = 99;
    let plan = store.plan_save(&settings, 4).unwrap();
    assert_eq!(plan.offset, SETTINGS_OFFSET_A);
    write_settings_slot(&mut flash, plan.offset, &plan.bytes);
    store.mark_written(&plan);
    assert_eq!(load_settings(&flash).0, settings);

    // Second save goes to B and wins on the next load.
    settings.tz_offset_min = -120;
    let plan = store.plan_save(&settings, 4).unwrap();
    assert_eq!(plan.offset, SETTINGS_OFFSET_B);
    write_settings_slot(&mut flash, plan.offset, &plan.bytes);
    store.mark_written(&plan);
    let (reloaded, mut store) = load_settings(&flash);
    assert_eq!(reloaded, settings);

    // A third save into A is cut short after 10 bytes: the copy in B survives.
    let mut newer = settings;
    newer.brightness = 7;
    let plan = store.plan_save(&newer, 4).unwrap();
    assert_eq!(plan.offset, SETTINGS_OFFSET_A);
    write_settings_slot(&mut flash, plan.offset, &plan.bytes[..10]);
    assert_eq!(load_settings(&flash).0, settings);
}
