//! Protocol encoder, framebuffer addressing, initialization and flush
//! behaviour, exercised through a recording bus.

use ssd1312::bus::FailingBus;
use ssd1312::bus::NoDelay;
use ssd1312::bus::RawBus;
use ssd1312::bus::RawWrite;
use ssd1312::bus::RecordingBus;
use ssd1312::bus::TransportError;
use ssd1312::Ssd1312;

const INIT_COMMANDS: [u8; 25] = [
    0xAE, 0xD5, 0x80, 0xA8, 0x3F, 0xD3, 0x00, 0x40, 0x8D, 0x12, 0x20, 0x02, 0xA0, 0xC8, 0xDA,
    0x12, 0x81, 0x7F, 0xD9, 0x22, 0xDB, 0x20, 0xA4, 0xA6, 0xAF,
];

fn fresh() -> Ssd1312<RecordingBus> {
    Ssd1312::new(RecordingBus::new())
}

#[test]
fn new_driver_has_dark_buffer_and_empty_transcript() {
    let d = fresh();
    for i in 0..1024 {
        assert_eq!(d.buffer[i], 0);
    }
    assert_eq!(d.bus.writes.len(), 0);
}

#[test]
fn send_command_frames_one_transaction() {
    let mut d = fresh();
    assert!(d.send_command(0xA5).is_ok());
    assert_eq!(d.bus.writes.len(), 1);
    assert_eq!(d.bus.writes[0].0, 0x3C);
    assert_eq!(d.bus.writes[0].1, vec![0x00, 0xA5]);
}

#[test]
fn send_commands_sends_each_in_order() {
    let mut d = fresh();
    assert!(d.send_commands(&[0x10, 0x20, 0x30]).is_ok());
    assert_eq!(d.bus.writes.len(), 3);
    assert_eq!(d.bus.writes[0].1, vec![0x00, 0x10]);
    assert_eq!(d.bus.writes[1].1, vec![0x00, 0x20]);
    assert_eq!(d.bus.writes[2].1, vec![0x00, 0x30]);
}

#[test]
fn send_data_empty_payload_sends_nothing() {
    let mut d = fresh();
    assert!(d.send_data(&[]).is_ok());
    assert_eq!(d.bus.writes.len(), 0);
}

#[test]
fn send_data_truncates_to_one_transaction_of_128_bytes() {
    let mut d = fresh();
    let payload: Vec<u8> = (0..200).map(|i| i as u8).collect();
    assert!(d.send_data(&payload).is_ok());
    assert_eq!(d.bus.writes.len(), 1);
    let bytes = &d.bus.writes[0].1;
    assert_eq!(bytes.len(), 129);
    assert_eq!(bytes[0], 0x40);
    for i in 0..128 {
        assert_eq!(bytes[1 + i], i as u8);
    }
}

#[test]
fn send_data_short_payload_is_sent_whole() {
    let mut d = fresh();
    assert!(d.send_data(&[1, 2, 3]).is_ok());
    assert_eq!(d.bus.writes.len(), 1);
    assert_eq!(d.bus.writes[0].1, vec![0x40, 1, 2, 3]);
}

#[test]
fn set_page_in_range_and_out_of_range() {
    let mut d = fresh();
    assert!(d.set_page(3).is_ok());
    assert_eq!(d.bus.writes.len(), 1);
    assert_eq!(d.bus.writes[0].1, vec![0x00, 0xB3]);
    assert!(d.set_page(8).is_ok());
    assert_eq!(d.bus.writes.len(), 1);
}

#[test]
fn set_column_sends_low_then_high_nibble() {
    let mut d = fresh();
    assert!(d.set_column(0x5A).is_ok());
    assert_eq!(d.bus.writes.len(), 2);
    assert_eq!(d.bus.writes[0].1, vec![0x00, 0x0A]);
    assert_eq!(d.bus.writes[1].1, vec![0x00, 0x15]);
    assert!(d.set_column(128).is_ok());
    assert_eq!(d.bus.writes.len(), 2);
}

#[test]
fn set_pixel_addressing_matches_page_layout() {
    let mut d = fresh();
    d.set_pixel(0, 0, true);
    assert_eq!(d.buffer[0], 0x01);
    d.set_pixel(127, 63, true);
    assert_eq!(d.buffer[1023], 0x80);
    d.set_pixel(5, 9, true);
    assert_eq!(d.buffer[133], 0x02);
    assert_eq!(d.bus.writes.len(), 0);
}

#[test]
fn set_pixel_out_of_range_is_ignored() {
    let mut d = fresh();
    d.set_pixel(7, 11, true);
    let before = d.buffer;
    d.set_pixel(128, 0, true);
    d.set_pixel(0, 64, true);
    d.set_pixel(255, 255, true);
    assert!(d.buffer == before);
}

#[test]
fn set_pixel_set_then_clear_restores_byte() {
    let mut d = fresh();
    d.set_pixel(12, 21, true);
    d.set_pixel(13, 21, true);
    let before = d.buffer;
    d.set_pixel(12, 20, true);
    d.set_pixel(12, 20, false);
    assert!(d.buffer == before);
}

#[test]
fn clear_buffer_zeroes_after_any_pixels() {
    let mut d = fresh();
    for x in 0..128 {
        d.set_pixel(x, (x % 64) as u8, true);
    }
    d.clear_buffer();
    for i in 0..1024 {
        assert_eq!(d.buffer[i], 0);
    }
    assert_eq!(d.bus.writes.len(), 0);
}

#[test]
fn init_sends_settle_sequence_in_order() {
    let mut d = fresh();
    let mut delay = NoDelay;
    assert!(d.init(&mut delay).is_ok());
    assert_eq!(d.bus.writes.len(), INIT_COMMANDS.len());
    for (i, cmd) in INIT_COMMANDS.iter().enumerate() {
        assert_eq!(d.bus.writes[i].0, 0x3C);
        assert_eq!(d.bus.writes[i].1, vec![0x00, *cmd]);
    }
}

#[test]
fn display_flushes_pages_in_ascending_order() {
    let mut d = fresh();
    d.set_pixel(1, 0, true);
    assert!(d.display().is_ok());
    assert_eq!(d.bus.writes.len(), 32);
    for p in 0..8 {
        assert_eq!(d.bus.writes[4 * p].1, vec![0x00, 0xB0 | p as u8]);
        assert_eq!(d.bus.writes[4 * p + 1].1, vec![0x00, 0x00]);
        assert_eq!(d.bus.writes[4 * p + 2].1, vec![0x00, 0x10]);
        let data = &d.bus.writes[4 * p + 3].1;
        assert_eq!(data.len(), 129);
        assert_eq!(data[0], 0x40);
    }
    assert_eq!(d.bus.writes[3].1[2], 0x01);
}

#[test]
fn init_clear_display_end_to_end() {
    let mut d = fresh();
    let mut delay = NoDelay;
    assert!(d.init(&mut delay).is_ok());
    assert!(d.clear().is_ok());
    assert!(d.display().is_ok());
    assert_eq!(d.bus.writes.len(), 25 + 32 + 32);
    let base = 25 + 32;
    for p in 0..8 {
        let w = &d.bus.writes[base + 4 * p..base + 4 * p + 4];
        assert_eq!(w[0].1, vec![0x00, 0xB0 | p as u8]);
        assert_eq!(w[1].1, vec![0x00, 0x00]);
        assert_eq!(w[2].1, vec![0x00, 0x10]);
        assert_eq!(w[3].1.len(), 129);
        assert_eq!(w[3].1[0], 0x40);
        for b in 1..129 {
            assert_eq!(w[3].1[b], 0x00);
        }
    }
}

#[test]
fn draw_pixel_resends_only_the_affected_byte() {
    let mut d = fresh();
    assert!(d.draw_pixel(10, 9).is_ok());
    assert_eq!(d.buffer[1 * 128 + 10], 0x02);
    assert_eq!(d.bus.writes.len(), 4);
    assert_eq!(d.bus.writes[0].1, vec![0x00, 0xB1]);
    assert_eq!(d.bus.writes[1].1, vec![0x00, 0x0A]);
    assert_eq!(d.bus.writes[2].1, vec![0x00, 0x10]);
    assert_eq!(d.bus.writes[3].1, vec![0x40, 0x02]);
}

#[test]
fn draw_pixel_out_of_range_sends_nothing() {
    let mut d = fresh();
    assert!(d.draw_pixel(200, 9).is_ok());
    assert_eq!(d.bus.writes.len(), 0);
}

#[test]
fn control_commands_pass_through() {
    let mut d = fresh();
    assert!(d.set_contrast(0x55).is_ok());
    assert!(d.set_invert(true).is_ok());
    assert!(d.set_invert(false).is_ok());
    assert!(d.set_display_on(true).is_ok());
    assert!(d.set_display_on(false).is_ok());
    assert_eq!(d.bus.writes.len(), 6);
    assert_eq!(d.bus.writes[0].1, vec![0x00, 0x81]);
    assert_eq!(d.bus.writes[1].1, vec![0x00, 0x55]);
    assert_eq!(d.bus.writes[2].1, vec![0x00, 0xA7]);
    assert_eq!(d.bus.writes[3].1, vec![0x00, 0xA6]);
    assert_eq!(d.bus.writes[4].1, vec![0x00, 0xAF]);
    assert_eq!(d.bus.writes[5].1, vec![0x00, 0xAE]);
    for i in 0..1024 {
        assert_eq!(d.buffer[i], 0);
    }
}

#[test]
fn transport_errors_propagate_unchanged() {
    let kinds = [
        TransportError::Nack,
        TransportError::Timeout,
        TransportError::Bus,
        TransportError::Arbitration,
        TransportError::Overrun,
        TransportError::Other,
    ];
    for kind in kinds {
        let mut d = Ssd1312::new(FailingBus { kind });
        assert_eq!(d.send_command(0xA5), Err(kind));
        assert_eq!(d.send_data(&[1]), Err(kind));
        assert_eq!(d.display(), Err(kind));
    }
}

/// A plain transport that records writes and can be told to start refusing
/// them.
struct ScriptedWriter {
    accepted: Vec<(u8, Vec<u8>)>,
    accept_first: usize,
}

impl RawWrite for ScriptedWriter {
    fn raw_write(&mut self, addr: u8, payload: &[u8]) -> Result<(), TransportError> {
        if self.accepted.len() < self.accept_first {
            self.accepted.push((addr, payload.to_vec()));
            Ok(())
        } else {
            Err(TransportError::Nack)
        }
    }
}

#[test]
fn raw_bus_forwards_writes_to_the_transport() {
    let writer = ScriptedWriter { accepted: Vec::new(), accept_first: usize::MAX };
    let mut d = Ssd1312::new(RawBus::new(writer));
    assert!(d.send_command(0xA4).is_ok());
    assert!(d.send_data(&[9, 8]).is_ok());
    assert_eq!(d.bus.writer.accepted.len(), 2);
    assert_eq!(d.bus.writer.accepted[0], (0x3C, vec![0x00, 0xA4]));
    assert_eq!(d.bus.writer.accepted[1], (0x3C, vec![0x40, 9, 8]));
}

#[test]
fn display_stops_at_the_first_refused_write() {
    let writer = ScriptedWriter { accepted: Vec::new(), accept_first: 6 };
    let mut d = Ssd1312::new(RawBus::new(writer));
    assert_eq!(d.display(), Err(TransportError::Nack));
    assert_eq!(d.bus.writer.accepted.len(), 6);
    assert_eq!(d.bus.writer.accepted[4].1, vec![0x00, 0xB1]);
    assert_eq!(d.bus.writer.accepted[5].1, vec![0x00, 0x00]);
}

#[test]
fn init_aborts_on_first_failure() {
    let mut d = Ssd1312::new(FailingBus { kind: TransportError::Nack });
    let mut delay = NoDelay;
    assert_eq!(d.init(&mut delay), Err(TransportError::Nack));
}

#[test]
fn clear_fails_but_buffer_is_still_zeroed() {
    let mut d = Ssd1312::new(FailingBus { kind: TransportError::Timeout });
    d.set_pixel(3, 3, true);
    assert_eq!(d.clear(), Err(TransportError::Timeout));
    for i in 0..1024 {
        assert_eq!(d.buffer[i], 0);
    }
}
