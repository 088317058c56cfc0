use nes_core::apu::{AudioChannels, SquareWave, TriangleWave, APU, CPU_FREQ};

fn channel(bits: u8) -> AudioChannels {
    AudioChannels::from_bits_truncate(bits)
}

#[test]
fn new_apu_is_silent_and_unattached() {
    let apu = APU::new();
    assert_eq!(apu.output_rate, None);
    assert_eq!(apu.guest_enabled_channels.bits(), 0);
    assert_eq!(apu.host_enabled_channels.bits(), 0x1F);
    assert_eq!(apu.last_cpu_cycles, 0);
}

#[test]
fn sample_count_follows_clock() {
    let mut apu = APU::new();
    apu.attach_output_device(48_000);
    let step = apu.run_until_cycle(CPU_FREQ);
    assert_eq!(step.sample_count, 48_000);
    assert_eq!(step.start_cycle, 0);
    assert_eq!(step.end_cycle, CPU_FREQ);
    let step = apu.run_until_cycle(CPU_FREQ + 29_830);
    // 48000 * 29830 / 1789773 = 800.01...
    assert_eq!(step.sample_count, 800);
    let step = apu.run_until_cycle(CPU_FREQ + 29_830 + 37);
    // 48000 * 37 / 1789773 < 1
    assert_eq!(step.sample_count, 0);
}

#[test]
fn no_output_still_advances_watermark() {
    let mut apu = APU::new();
    let step = apu.run_until_cycle(1_000_000);
    assert_eq!(step.sample_count, 0);
    assert_eq!(apu.last_cpu_cycles, 1_000_000);
}

#[test]
fn run_until_cycle_twice_produces_samples_once() {
    let mut apu = APU::new();
    apu.attach_output_device(44_100);
    let first = apu.run_until_cycle(100_000);
    let second = apu.run_until_cycle(100_000);
    assert_eq!(first.sample_count, 2463);
    assert_eq!(second.sample_count, 0);
    assert_eq!(apu.last_cpu_cycles, 100_000);
}

#[test]
fn register_writes_set_pulse_parameters() {
    let mut apu = APU::new();
    apu.write_register(0x4000, 0b1100_0000, 10);
    assert_eq!(apu.square_wave1.duty, 3);
    assert_eq!(apu.square_wave1.duty_eighths(), 6);
    apu.write_register(0x4002, 0xAB, 20);
    apu.write_register(0x4003, 0xFD, 30);
    assert_eq!(apu.square_wave1.period, 0x5AB);
    apu.write_register(0x4002, 0x01, 40);
    assert_eq!(apu.square_wave1.period, 0x501);
    apu.write_register(0x4001, 0xFF, 50);
    assert_eq!(apu.square_wave1, SquareWave { duty: 3, period: 0x501 });
    assert_eq!(apu.square_wave2, SquareWave { duty: 2, period: 0 });

    apu.write_register(0x4004, 0x40, 60);
    apu.write_register(0x4006, 0x10, 70);
    apu.write_register(0x4007, 0x02, 80);
    assert_eq!(apu.square_wave2, SquareWave { duty: 1, period: 0x210 });
    assert_eq!(apu.last_cpu_cycles, 80);
}

#[test]
fn register_writes_set_triangle_period() {
    let mut apu = APU::new();
    apu.write_register(0x400A, 0x34, 1);
    apu.write_register(0x400B, 0x0F, 2);
    assert_eq!(apu.triangle_wave, TriangleWave { period: 0x734 });
    apu.write_register(0x4008, 0xFF, 3);
    assert_eq!(apu.triangle_wave, TriangleWave { period: 0x734 });
}

#[test]
fn unlisted_register_is_ignored() {
    let mut apu = APU::new();
    apu.write_register(0x4009, 0xFF, 5);
    apu.write_register(0x4017, 0xFF, 6);
    assert_eq!(apu.square_wave1, SquareWave::new());
    assert_eq!(apu.triangle_wave, TriangleWave::new());
    assert_eq!(apu.guest_enabled_channels.bits(), 0);
}

#[test]
fn enable_register_keeps_low_five_bits() {
    let mut apu = APU::new();
    apu.write_register(0x4015, 0xFF, 5);
    assert_eq!(apu.guest_enabled_channels.bits(), 0x1F);
}

#[test]
fn write_register_flushes_under_old_parameters() {
    let mut apu = APU::new();
    apu.attach_output_device(48_000);
    apu.write_register(0x4015, 0x01, 0);
    apu.write_register(0x4002, 0x64, 0);
    let step = apu.write_register(0x4002, 0xC8, CPU_FREQ);
    assert_eq!(step.sample_count, 48_000);
    assert_eq!(step.square1, Some(SquareWave { duty: 2, period: 100 }));
    assert_eq!(step.square2, None);
    assert_eq!(step.triangle, None);
    assert_eq!(apu.square_wave1.period, 200);
}

#[test]
fn enablement_needs_host_and_guest() {
    let mut apu = APU::new();
    apu.attach_output_device(48_000);
    apu.write_register(0x4015, AudioChannels::SQUARE1 | AudioChannels::TRIANGLE, 0);
    assert!(apu.channel_enabled(channel(AudioChannels::SQUARE1)));
    assert!(!apu.channel_enabled(channel(AudioChannels::SQUARE2)));

    apu.toggle_channel(channel(AudioChannels::SQUARE1));
    assert!(!apu.channel_enabled(channel(AudioChannels::SQUARE1)));
    assert_eq!(apu.guest_enabled_channels.bits(), 0x05);
    let step = apu.run_until_cycle(1000);
    assert_eq!(step.square1, None);
    assert_eq!(step.triangle, Some(TriangleWave { period: 0 }));

    apu.toggle_channel(channel(AudioChannels::SQUARE1));
    assert!(apu.channel_enabled(channel(AudioChannels::SQUARE1)));

    apu.write_register(0x4015, 0, 2000);
    assert!(!apu.channel_enabled(channel(AudioChannels::SQUARE1)));
    assert_eq!(apu.host_enabled_channels.bits(), 0x1F);
}

#[test]
fn channel_set_operations() {
    let mut set = AudioChannels::empty();
    set.toggle(channel(AudioChannels::NOISE));
    assert!(set.contains(channel(AudioChannels::NOISE)));
    assert!(!set.contains(channel(AudioChannels::DMC)));
    set.toggle(channel(AudioChannels::NOISE));
    assert_eq!(set, AudioChannels::empty());
    assert_eq!(AudioChannels::all().intersection(channel(0x0A)).bits(), 0x0A);
    assert_eq!(channel(0xE3).bits(), 0x03);
}

#[test]
fn pulse_mute_threshold() {
    let mut sq = SquareWave::new();
    sq.write_fine_tune(5);
    assert!(sq.is_muted());
    sq.write_fine_tune(7);
    assert!(sq.is_muted());
    sq.write_fine_tune(8);
    assert!(!sq.is_muted());
    sq.write_fine_tune(100);
    assert_eq!(sq.period_cycles(), 16 * 101);
}

#[test]
fn triangle_mute_threshold() {
    let mut tri = TriangleWave::new();
    tri.write_fine_tune(1);
    assert!(tri.is_muted());
    tri.write_fine_tune(2);
    assert!(!tri.is_muted());
    assert_eq!(tri.period_cycles(), 96);
}

#[test]
fn duty_settings() {
    let mut sq = SquareWave::new();
    let expected = [1u8, 2, 4, 6];
    for d in 0..4u8 {
        sq.write_control(d << 6 | 0x3F);
        assert_eq!(sq.duty, d);
        assert_eq!(sq.duty_eighths(), expected[d as usize]);
    }
}
