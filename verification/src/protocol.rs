//! The wire model: which transactions each driver operation puts on the bus.
//!
//! The controller multiplexes its command channel and its pixel-data channel
//! over one bus address with a leading control byte: `0x00` marks the payload
//! as a command, `0x40` as display data. These functions build the exact
//! transaction sequences the driver's contracts promise.

use vstd::prelude::*;

use crate::bus::Transaction;
use crate::PAGE_COUNT;
use crate::SCREEN_WIDTH;
use crate::SSD1312_I2C_ADDR;

verus! {

/// The transaction carrying one command byte: control byte `0x00`, then the
/// command.
pub open spec fn command_txn(cmd: u8) -> Transaction {
    Transaction { addr: SSD1312_I2C_ADDR, bytes: seq![0x00u8, cmd] }
}

/// The transactions carrying a list of command bytes, one transaction each,
/// in order.
pub open spec fn command_txns(cmds: Seq<u8>) -> Seq<Transaction> {
    cmds.map_values(|c: u8| command_txn(c))
}

/// The transaction carrying a run of display data: control byte `0x40`, then
/// the data bytes.
pub open spec fn data_txn(data: Seq<u8>) -> Transaction {
    Transaction { addr: SSD1312_I2C_ADDR, bytes: seq![0x40u8] + data }
}

/// What a send-data request puts on the bus: nothing for an empty payload,
/// else one data transaction holding the payload truncated to
/// `MAX_DATA_PAYLOAD` bytes.
pub open spec fn send_data_txns(data: Seq<u8>) -> Seq<Transaction> {
    if data.len() == 0 {
        Seq::<Transaction>::empty()
    } else if data.len() <= MAX_DATA_PAYLOAD as int {
        seq![data_txn(data)]
    } else {
        seq![data_txn(data.take(MAX_DATA_PAYLOAD as int))]
    }
}

/// The largest number of data bytes one transaction may carry.
pub const MAX_DATA_PAYLOAD: usize = 128;

/// What a set-page request sends: the page-address command for an in-range
/// page, nothing for an out-of-range one.
pub open spec fn set_page_txns(page: u8) -> Seq<Transaction> {
    if page < PAGE_COUNT {
        seq![command_txn(0xB0u8 | page)]
    } else {
        Seq::<Transaction>::empty()
    }
}

/// What a set-column request sends: the low-nibble then high-nibble column
/// address commands for an in-range column, nothing for an out-of-range one.
pub open spec fn set_column_txns(col: u8) -> Seq<Transaction> {
    if col < SCREEN_WIDTH {
        seq![command_txn(col & 0x0Fu8), command_txn(0x10u8 | (col >> 4u8))]
    } else {
        Seq::<Transaction>::empty()
    }
}

/// The transactions that flush page `page` of framebuffer image `buf`: set
/// the page, reset the column to zero, then send the page's
/// `SCREEN_WIDTH`-byte slice as one data transaction.
pub open spec fn page_flush_txns(buf: Seq<u8>, page: int) -> Seq<Transaction> {
    set_page_txns(page as u8) + set_column_txns(0) + seq![
        data_txn(buf.subrange(page * (SCREEN_WIDTH as int), (page + 1) * (SCREEN_WIDTH as int))),
    ]
}

/// The transactions that flush the first `n` pages of image `buf`, in
/// page-ascending order.
pub open spec fn display_txns_upto(buf: Seq<u8>, n: int) -> Seq<Transaction>
    decreases n,
{
    if n <= 0 {
        Seq::<Transaction>::empty()
    } else {
        display_txns_upto(buf, n - 1) + page_flush_txns(buf, n - 1)
    }
}

/// The transactions of a full flush of image `buf`: all `PAGE_COUNT` pages in
/// ascending order.
pub open spec fn display_txns(buf: Seq<u8>) -> Seq<Transaction> {
    display_txns_upto(buf, PAGE_COUNT as int)
}

/// The transactions of an immediate single-pixel draw at in-range (`x`, `y`)
/// on image `buf` (taken after the pixel is set): address the pixel's page
/// and column, then send its one framebuffer byte.
pub open spec fn draw_pixel_txns(buf: Seq<u8>, x: int, y: int) -> Seq<Transaction> {
    set_page_txns((y / 8) as u8) + set_column_txns(x as u8) + seq![
        data_txn(seq![buf[crate::framebuffer::pixel_index(x, y)]]),
    ]
}

/// The initialization command list, in the order mandated by the
/// controller's power-up requirements: display off; clock divide ratio;
/// multiplex ratio 63 (64 rows); display offset 0; start line 0; charge pump
/// enable; page addressing mode; segment remap; COM scan direction; COM pin
/// hardware configuration; default contrast; pre-charge periods; VCOMH
/// level; resume RAM content display; normal (non-inverted) mode; display
/// on.
pub open spec fn init_commands() -> Seq<u8> {
    seq![
        0xAEu8,
        0xD5u8,
        0x80u8,
        0xA8u8,
        0x3Fu8,
        0xD3u8,
        0x00u8,
        0x40u8,
        0x8Du8,
        0x12u8,
        0x20u8,
        0x02u8,
        0xA0u8,
        0xC8u8,
        0xDAu8,
        0x12u8,
        0x81u8,
        0x7Fu8,
        0xD9u8,
        0x22u8,
        0xDBu8,
        0x20u8,
        0xA4u8,
        0xA6u8,
        0xAFu8,
    ]
}

} // verus!
