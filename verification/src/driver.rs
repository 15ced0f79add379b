//! The display driver: a framebuffer, a bus handle, the command/data
//! protocol encoder, the initialization sequence, and the flush and control
//! operations.

use vstd::prelude::*;

use crate::canvas::lemma_pixel_after_all_on;
use crate::canvas::pixel_after;
use crate::canvas::Canvas;
use crate::canvas::Pixel;
use crate::font::centered_x;
use crate::font::glyph_height;
use crate::font::glyph_width;
use crate::font::text_hits;
use crate::font::text_pixels;
use crate::font::Font;
use crate::font::TextStyle;
use crate::font::TextStyles;
use crate::raster::in_rect;
use crate::raster::line_pixels;
use crate::raster::line_points;
use crate::raster::on_rect_border;
use crate::raster::rect_fill_pixels;
use crate::raster::rect_stroke_pixels;
use crate::bus::Bus;
use crate::bus::DelayMs;
use crate::bus::Transaction;
use crate::bus::TransportError;
use crate::framebuffer::byte_with_bit;
use crate::framebuffer::in_bounds;
use crate::framebuffer::lemma_pixel_index_range;
use crate::framebuffer::lemma_set_pixel_spec_pixels;
use crate::framebuffer::lemma_zero_buf_dark;
use crate::framebuffer::pixel_bit;
use crate::framebuffer::pixel_index;
use crate::framebuffer::pixel_of;
use crate::framebuffer::set_pixel_spec;
use crate::framebuffer::zero_buf;
use crate::protocol::command_txn;
use crate::protocol::command_txns;
use crate::protocol::data_txn;
use crate::protocol::display_txns;
use crate::protocol::display_txns_upto;
use crate::protocol::draw_pixel_txns;
use crate::protocol::init_commands;
use crate::protocol::page_flush_txns;
use crate::protocol::send_data_txns;
use crate::protocol::set_column_txns;
use crate::protocol::set_page_txns;
use crate::protocol::MAX_DATA_PAYLOAD;
use crate::BUFFER_SIZE;
use crate::PAGE_COUNT;
use crate::SCREEN_HEIGHT;
use crate::SCREEN_WIDTH;
use crate::SSD1312_I2C_ADDR;

verus! {

/// An SSD1312 display: the in-memory framebuffer and the bus it is flushed
/// through.
pub struct Ssd1312<B: Bus> {
    /// The bus handle every transaction is written to.
    pub bus: B,
    /// The framebuffer, one byte per column per page, page-major.
    pub buffer: [u8; BUFFER_SIZE],
}

impl<B: Bus> Ssd1312<B> {
    /// The framebuffer image.
    pub open spec fn buf(self) -> Seq<u8> {
        self.buffer@
    }

    /// The transcript of every transaction sent so far.
    pub open spec fn sent(self) -> Seq<Transaction> {
        self.bus.txns()
    }

    /// Creates a driver over `bus` with an all-dark framebuffer.
    pub fn new(bus: B) -> (r: Ssd1312<B>)
        ensures
            r.bus == bus,
            r.buf() == zero_buf(),
    {
        let r = Ssd1312 { bus, buffer: [0u8; BUFFER_SIZE] };
        proof {
            assert(r.buf() =~= zero_buf());
        }
        r
    }

    /// Sends one command byte as a `[0x00, cmd]` transaction; a transport
    /// failure is propagated unchanged and sends nothing.
    pub fn send_command(&mut self, cmd: u8) -> (r: Result<(), TransportError>)
        ensures
            final(self).buf() == old(self).buf(),
            r is Ok ==> final(self).sent() == old(self).sent().push(command_txn(cmd)),
            r is Err ==> final(self).sent() == old(self).sent(),
    {
        let data: [u8; 2] = [0x00, cmd];
        let r = self.bus.write(SSD1312_I2C_ADDR, data.as_slice());
        proof {
            assert(data@ =~= seq![0x00u8, cmd]);
        }
        r
    }

    /// Sends each command byte in order, one transaction each, and stops at
    /// the first transport failure.
    pub fn send_commands(&mut self, cmds: &[u8]) -> (r: Result<(), TransportError>)
        ensures
            final(self).buf() == old(self).buf(),
            r is Ok ==> final(self).sent() == old(self).sent() + command_txns(cmds@),
            r is Err ==> exists|k: int|
                0 <= k < cmds@.len() && final(self).sent() == old(self).sent() + command_txns(
                    cmds@.take(k),
                ),
    {
        let mut i: usize = 0;
        while i < cmds.len()
            invariant
                i <= cmds@.len(),
                self.buf() == old(self).buf(),
                self.sent() == old(self).sent() + command_txns(cmds@.take(i as int)),
            decreases cmds@.len() - i,
        {
            let cmd = cmds[i];
            match self.send_command(cmd) {
                Ok(()) => {},
                Err(e) => {
                    return Err(e);
                },
            }
            proof {
                assert(cmds@.take(i as int + 1) =~= cmds@.take(i as int).push(cmd));
                assert(command_txns(cmds@.take(i as int + 1)) =~= command_txns(
                    cmds@.take(i as int),
                ).push(command_txn(cmd)));
                assert(old(self).sent() + command_txns(cmds@.take(i as int + 1)) =~= (old(
                    self,
                ).sent() + command_txns(cmds@.take(i as int))).push(command_txn(cmd)));
            }
            i = i + 1;
        }
        proof {
            assert(cmds@.take(cmds@.len() as int) =~= cmds@);
        }
        Ok(())
    }

    /// Sends a run of display data as one `[0x40] ++ data` transaction. An
    /// empty payload sends nothing and succeeds; a payload longer than
    /// `MAX_DATA_PAYLOAD` bytes is truncated to that many, not split.
    pub fn send_data(&mut self, data: &[u8]) -> (r: Result<(), TransportError>)
        ensures
            final(self).buf() == old(self).buf(),
            data@.len() == 0 ==> r is Ok && final(self).sent() == old(self).sent(),
            r is Ok ==> final(self).sent() == old(self).sent() + send_data_txns(data@),
            r is Err ==> final(self).sent() == old(self).sent(),
    {
        if data.len() == 0 {
            return Ok(());
        }
        let len = if data.len() < MAX_DATA_PAYLOAD {
            data.len()
        } else {
            MAX_DATA_PAYLOAD
        };
        let mut frame: Vec<u8> = Vec::new();
        frame.push(0x40);
        let mut i: usize = 0;
        while i < len
            invariant
                len <= data@.len(),
                i <= len,
                frame@ == seq![0x40u8] + data@.take(i as int),
            decreases len - i,
        {
            frame.push(data[i]);
            proof {
                assert(seq![0x40u8] + data@.take(i as int + 1) =~= (seq![0x40u8] + data@.take(
                    i as int,
                )).push(data@[i as int]));
            }
            i = i + 1;
        }
        let r = self.bus.write(SSD1312_I2C_ADDR, frame.as_slice());
        proof {
            if data@.len() <= MAX_DATA_PAYLOAD as int {
                assert(data@.take(len as int) =~= data@);
            }
            assert(frame@ == data_txn(data@.take(len as int)).bytes);
        }
        r
    }

    /// Addresses page `page` for subsequent data writes; an out-of-range page
    /// sends nothing and succeeds.
    pub fn set_page(&mut self, page: u8) -> (r: Result<(), TransportError>)
        ensures
            final(self).buf() == old(self).buf(),
            r is Ok ==> final(self).sent() == old(self).sent() + set_page_txns(page),
            r is Err ==> final(self).sent() == old(self).sent(),
            page >= PAGE_COUNT ==> r is Ok && final(self).sent() == old(self).sent(),
    {
        if page < PAGE_COUNT {
            let r = self.send_command(0xB0 | page);
            proof {
                if r is Ok {
                    assert(old(self).sent() + set_page_txns(page) =~= old(self).sent().push(
                        command_txn(0xB0 | page),
                    ));
                }
            }
            r
        } else {
            proof {
                assert(self.sent() + set_page_txns(page) =~= self.sent());
            }
            Ok(())
        }
    }

    /// Addresses column `col` for subsequent data writes, low nibble then
    /// high nibble; an out-of-range column sends nothing and succeeds.
    pub fn set_column(&mut self, col: u8) -> (r: Result<(), TransportError>)
        ensures
            final(self).buf() == old(self).buf(),
            r is Ok ==> final(self).sent() == old(self).sent() + set_column_txns(col),
            r is Err ==> final(self).sent() == old(self).sent() || final(self).sent() == old(
                self,
            ).sent().push(command_txn(col & 0x0F)),
            col >= SCREEN_WIDTH ==> r is Ok && final(self).sent() == old(self).sent(),
    {
        if col < SCREEN_WIDTH {
            match self.send_command(col & 0x0F) {
                Ok(()) => {},
                Err(e) => {
                    return Err(e);
                },
            }
            let r = self.send_command(0x10 | (col >> 4));
            proof {
                if r is Ok {
                    assert(old(self).sent() + set_column_txns(col) =~= old(self).sent().push(
                        command_txn(col & 0x0F),
                    ).push(command_txn(0x10 | (col >> 4))));
                }
            }
            r
        } else {
            proof {
                assert(self.sent() + set_column_txns(col) =~= self.sent());
            }
            Ok(())
        }
    }

    /// Runs the controller's power-up sequence: a settle delay, the fixed
    /// command list of [`init_commands`] in order, and a final settle delay.
    /// The first transport failure aborts the sequence and is propagated
    /// unchanged.
    pub fn init<D: DelayMs>(&mut self, delay: &mut D) -> (r: Result<(), TransportError>)
        ensures
            final(self).buf() == old(self).buf(),
            r is Ok ==> final(self).sent() == old(self).sent() + command_txns(init_commands()),
            r is Err ==> exists|k: int|
                0 <= k < init_commands().len() && final(self).sent() == old(self).sent()
                    + command_txns(init_commands().take(k)),
    {
        delay.delay_ms(20);
        let cmds: [u8; 25] = [
            0xAE,
            0xD5,
            0x80,
            0xA8,
            0x3F,
            0xD3,
            0x00,
            0x40,
            0x8D,
            0x12,
            0x20,
            0x02,
            0xA0,
            0xC8,
            0xDA,
            0x12,
            0x81,
            0x7F,
            0xD9,
            0x22,
            0xDB,
            0x20,
            0xA4,
            0xA6,
            0xAF,
        ];
        proof {
            assert(cmds@ =~= init_commands());
        }
        match self.send_commands(cmds.as_slice()) {
            Ok(()) => {
                delay.delay_ms(100);
                Ok(())
            },
            Err(e) => Err(e),
        }
    }

    /// Zeroes the framebuffer; nothing is sent.
    pub fn clear_buffer(&mut self)
        ensures
            final(self).buf() == zero_buf(),
            final(self).bus == old(self).bus,
            forall|k: int| 0 <= k < BUFFER_SIZE ==> #[trigger] final(self).buf()[k] == 0u8,
            forall|x: int, y: int| in_bounds(x, y) ==> !#[trigger] pixel_of(final(self).buf(), x, y),
    {
        self.buffer = [0u8; BUFFER_SIZE];
        proof {
            assert(self.buf() =~= zero_buf());
            lemma_zero_buf_dark();
        }
    }

    /// Sets pixel (`x`, `y`) of the framebuffer to `on`. Out-of-range
    /// coordinates change nothing; nothing is sent either way.
    pub fn set_pixel(&mut self, x: u8, y: u8, on: bool)
        ensures
            final(self).bus == old(self).bus,
            final(self).buf() == set_pixel_spec(old(self).buf(), x as int, y as int, on),
            !in_bounds(x as int, y as int) ==> final(self).buf() == old(self).buf(),
            forall|i: int, j: int|
                in_bounds(i, j) ==> #[trigger] pixel_of(final(self).buf(), i, j) == if i == x as int
                    && j == y as int {
                    on
                } else {
                    pixel_of(old(self).buf(), i, j)
                },
    {
        proof {
            lemma_set_pixel_spec_pixels(self.buf(), x as int, y as int, on);
        }
        if x >= SCREEN_WIDTH || y >= SCREEN_HEIGHT {
            return ;
        }
        proof {
            lemma_pixel_index_range(x as int, y as int);
        }
        let index = (y as usize / 8) * (SCREEN_WIDTH as usize) + (x as usize);
        let bit_pos = y % 8;
        let b = self.buffer[index];
        let nb = if on {
            b | (1u8 << bit_pos)
        } else {
            b & !(1u8 << bit_pos)
        };
        self.buffer[index] = nb;
        proof {
            assert(index == pixel_index(x as int, y as int));
            assert(nb == byte_with_bit(b, pixel_bit(y as int), on));
        }
    }

    /// Flushes the framebuffer to the device, page by page in ascending
    /// order: each page is addressed, the column is reset to zero, and the
    /// page's `SCREEN_WIDTH` bytes are sent as one data transaction. On
    /// success the device holds exactly the framebuffer image; on failure the
    /// transactions sent so far stand and the rest were never sent, so device
    /// and framebuffer may diverge until a later flush succeeds.
    pub fn display(&mut self) -> (r: Result<(), TransportError>)
        ensures
            final(self).buf() == old(self).buf(),
            r is Ok ==> final(self).sent() == old(self).sent() + display_txns(old(self).buf()),
            r is Err ==> exists|p: int, k: int|
                0 <= p < PAGE_COUNT as int && 0 <= k <= 4 && final(self).sent() == old(self).sent()
                    + display_txns_upto(old(self).buf(), p) + page_flush_txns(
                    old(self).buf(),
                    p,
                ).take(k),
    {
        let mut page: u8 = 0;
        while page < PAGE_COUNT
            invariant
                page <= PAGE_COUNT,
                self.buf() == old(self).buf(),
                self.sent() == old(self).sent() + display_txns_upto(
                    old(self).buf(),
                    page as int,
                ),
            decreases PAGE_COUNT - page,
        {
            let ghost buf0 = old(self).buf();
            let ghost p = page as int;
            match self.set_page(page) {
                Ok(()) => {},
                Err(e) => {
                    proof {
                        assert(self.sent() == old(self).sent() + display_txns_upto(buf0, p)
                            + page_flush_txns(buf0, p).take(0)) by {
                            assert(old(self).sent() + display_txns_upto(buf0, p) + page_flush_txns(
                                buf0,
                                p,
                            ).take(0) =~= old(self).sent() + display_txns_upto(buf0, p));
                        }
                    }
                    return Err(e);
                },
            }
            match self.set_column(0) {
                Ok(()) => {},
                Err(e) => {
                    proof {
                        let sent0 = old(self).sent() + display_txns_upto(buf0, p);
                        assert(set_page_txns(page).len() == 1);
                        if self.sent() == sent0 + set_page_txns(page) {
                            assert(sent0 + page_flush_txns(buf0, p).take(1) =~= sent0
                                + set_page_txns(page));
                        } else {
                            assert(self.sent() == (sent0 + set_page_txns(page)).push(
                                command_txn(0u8 & 0x0F),
                            ));
                            assert(sent0 + page_flush_txns(buf0, p).take(2) =~= (sent0
                                + set_page_txns(page)).push(command_txn(0u8 & 0x0F)));
                        }
                    }
                    return Err(e);
                },
            }
            let start = (page as usize) * (SCREEN_WIDTH as usize);
            let sub = vstd::slice::slice_subrange(
                self.buffer.as_slice(),
                start,
                start + (SCREEN_WIDTH as usize),
            );
            let data = vstd::slice::slice_to_vec(sub);
            let ghost sent1 = old(self).sent() + display_txns_upto(buf0, p) + set_page_txns(page)
                + set_column_txns(0);
            proof {
                assert(self.sent() =~= sent1);
                assert(data@ == buf0.subrange(p * 128, (p + 1) * 128));
            }
            match self.send_data(data.as_slice()) {
                Ok(()) => {},
                Err(e) => {
                    proof {
                        assert(old(self).sent() + display_txns_upto(buf0, p) + page_flush_txns(
                            buf0,
                            p,
                        ).take(3) =~= sent1);
                    }
                    return Err(e);
                },
            }
            proof {
                assert(send_data_txns(data@) =~= seq![
                    data_txn(buf0.subrange(p * 128, (p + 1) * 128)),
                ]);
                assert(self.sent() =~= old(self).sent() + display_txns_upto(buf0, p + 1)) by {
                    assert(display_txns_upto(buf0, p + 1) == display_txns_upto(buf0, p)
                        + page_flush_txns(buf0, p));
                    assert(sent1 + send_data_txns(data@) =~= old(self).sent() + (display_txns_upto(
                        buf0,
                        p,
                    ) + page_flush_txns(buf0, p)));
                }
            }
            page = page + 1;
        }
        Ok(())
    }

    /// Zeroes the framebuffer and flushes it, darkening the physical screen.
    pub fn clear(&mut self) -> (r: Result<(), TransportError>)
        ensures
            final(self).buf() == zero_buf(),
            r is Ok ==> final(self).sent() == old(self).sent() + display_txns(zero_buf()),
            r is Err ==> exists|p: int, k: int|
                0 <= p < PAGE_COUNT as int && 0 <= k <= 4 && final(self).sent() == old(self).sent()
                    + display_txns_upto(zero_buf(), p) + page_flush_txns(zero_buf(), p).take(k),
    {
        self.clear_buffer();
        self.display()
    }

    /// Sets pixel (`x`, `y`) and immediately re-sends only the one affected
    /// framebuffer byte, addressing its page and column first. Out-of-range
    /// coordinates change and send nothing.
    pub fn draw_pixel(&mut self, x: u8, y: u8) -> (r: Result<(), TransportError>)
        ensures
            final(self).buf() == set_pixel_spec(old(self).buf(), x as int, y as int, true),
            !in_bounds(x as int, y as int) ==> r is Ok && final(self).sent() == old(self).sent(),
            in_bounds(x as int, y as int) && r is Ok ==> final(self).sent() == old(self).sent()
                + draw_pixel_txns(final(self).buf(), x as int, y as int),
            in_bounds(x as int, y as int) && r is Err ==> exists|k: int|
                0 <= k <= 3 && final(self).sent() == old(self).sent() + draw_pixel_txns(
                    final(self).buf(),
                    x as int,
                    y as int,
                ).take(k),
    {
        self.set_pixel(x, y, true);
        if x >= SCREEN_WIDTH || y >= SCREEN_HEIGHT {
            return Ok(());
        }
        let ghost nbuf = self.buf();
        let ghost txns = draw_pixel_txns(nbuf, x as int, y as int);
        proof {
            lemma_pixel_index_range(x as int, y as int);
        }
        let page = y / 8;
        match self.set_page(page) {
            Ok(()) => {},
            Err(e) => {
                proof {
                    assert(old(self).sent() + txns.take(0) =~= old(self).sent());
                }
                return Err(e);
            },
        }
        match self.set_column(x) {
            Ok(()) => {},
            Err(e) => {
                proof {
                    assert(set_page_txns(page).len() == 1);
                    if self.sent() == old(self).sent() + set_page_txns(page) {
                        assert(old(self).sent() + txns.take(1) =~= old(self).sent()
                            + set_page_txns(page));
                    } else {
                        assert(old(self).sent() + txns.take(2) =~= (old(self).sent()
                            + set_page_txns(page)).push(command_txn(x & 0x0F)));
                    }
                }
                return Err(e);
            },
        }
        let ghost sent1 = old(self).sent() + set_page_txns(page) + set_column_txns(x);
        let index = (y as usize / 8) * (SCREEN_WIDTH as usize) + (x as usize);
        let one: [u8; 1] = [self.buffer[index]];
        proof {
            assert(one@ =~= seq![nbuf[pixel_index(x as int, y as int)]]);
            assert(sent1 =~= old(self).sent() + txns.take(3));
        }
        let r = self.send_data(one.as_slice());
        proof {
            if r is Ok {
                assert(send_data_txns(one@) =~= seq![
                    data_txn(seq![nbuf[pixel_index(x as int, y as int)]]),
                ]);
                assert(sent1 + send_data_txns(one@) =~= old(self).sent() + txns);
            }
        }
        r
    }

    /// Turns the display panel on or off; the framebuffer is untouched.
    pub fn set_display_on(&mut self, on: bool) -> (r: Result<(), TransportError>)
        ensures
            final(self).buf() == old(self).buf(),
            r is Ok ==> final(self).sent() == old(self).sent().push(
                command_txn(if on { 0xAFu8 } else { 0xAEu8 }),
            ),
            r is Err ==> final(self).sent() == old(self).sent(),
    {
        if on {
            self.send_command(0xAF)
        } else {
            self.send_command(0xAE)
        }
    }

    /// Sets the display contrast; the framebuffer is untouched.
    pub fn set_contrast(&mut self, contrast: u8) -> (r: Result<(), TransportError>)
        ensures
            final(self).buf() == old(self).buf(),
            r is Ok ==> final(self).sent() == old(self).sent() + command_txns(
                seq![0x81u8, contrast],
            ),
            r is Err ==> final(self).sent() == old(self).sent() || final(self).sent() == old(
                self,
            ).sent().push(command_txn(0x81)),
    {
        let cmds: [u8; 2] = [0x81, contrast];
        let r = self.send_commands(cmds.as_slice());
        proof {
            assert(cmds@ =~= seq![0x81u8, contrast]);
            if r is Err {
                let k = choose|k: int|
                    0 <= k < cmds@.len() && self.sent() == old(self).sent() + command_txns(
                        cmds@.take(k),
                    );
                if k == 0 {
                    assert(old(self).sent() + command_txns(cmds@.take(0)) =~= old(self).sent());
                } else {
                    assert(old(self).sent() + command_txns(cmds@.take(1)) =~= old(
                        self,
                    ).sent().push(command_txn(0x81)));
                }
            }
        }
        r
    }

    /// Applies a list of pixel requests to the framebuffer in order, last
    /// request to a coordinate winning; out-of-range coordinates are clipped.
    /// Nothing is sent.
    pub fn paint_pixels(&mut self, pixels: &[Pixel])
        ensures
            final(self).bus == old(self).bus,
            forall|i: int, j: int|
                in_bounds(i, j) ==> #[trigger] pixel_of(final(self).buf(), i, j) == pixel_after(
                    pixels@,
                    i,
                    j,
                    pixel_of(old(self).buf(), i, j),
                ),
    {
        let mut k: usize = 0;
        while k < pixels.len()
            invariant
                k <= pixels@.len(),
                self.bus == old(self).bus,
                forall|i: int, j: int|
                    in_bounds(i, j) ==> #[trigger] pixel_of(self.buf(), i, j) == pixel_after(
                        pixels@.take(k as int),
                        i,
                        j,
                        pixel_of(old(self).buf(), i, j),
                    ),
            decreases pixels@.len() - k,
        {
            let ghost prev = self.buf();
            let p = pixels[k];
            if p.x >= 0 && p.x < SCREEN_WIDTH as i32 && p.y >= 0 && p.y < SCREEN_HEIGHT as i32 {
                self.set_pixel(p.x as u8, p.y as u8, p.on);
            }
            proof {
                assert(pixels@.take(k as int + 1).drop_last() =~= pixels@.take(k as int));
                assert(pixels@.take(k as int + 1).last() == p);
                assert forall|i: int, j: int| in_bounds(i, j) implies #[trigger] pixel_of(
                    self.buf(),
                    i,
                    j,
                ) == pixel_after(
                    pixels@.take(k as int + 1),
                    i,
                    j,
                    pixel_of(old(self).buf(), i, j),
                ) by {
                    if p.x == i && p.y == j {
                        assert(pixel_of(self.buf(), i, j) == p.on);
                    } else {
                        assert(pixel_of(self.buf(), i, j) == pixel_of(prev, i, j));
                    }
                }
            }
            k = k + 1;
        }
        proof {
            assert(pixels@.take(pixels@.len() as int) =~= pixels@);
        }
    }

    /// Lights the `width`-pixel horizontal run starting at (`x`, `y`),
    /// clipped to the panel, then flushes the framebuffer.
    pub fn draw_horizontal_line(&mut self, x: u8, y: u8, width: u8) -> (r: Result<
        (),
        TransportError,
    >)
        ensures
            forall|i: int, j: int|
                in_bounds(i, j) ==> #[trigger] pixel_of(final(self).buf(), i, j) == (pixel_of(
                    old(self).buf(),
                    i,
                    j,
                ) || (j == y as int && x as int <= i < x as int + width as int)),
            r is Ok ==> final(self).sent() == old(self).sent() + display_txns(final(self).buf()),
            r is Err ==> exists|p: int, k: int|
                0 <= p < PAGE_COUNT as int && 0 <= k <= 4 && final(self).sent() == old(self).sent()
                    + display_txns_upto(final(self).buf(), p) + page_flush_txns(
                    final(self).buf(),
                    p,
                ).take(k),
    {
        let pts = rect_fill_pixels(x, y, width, 1);
        self.paint_pixels(pts.as_slice());
        proof {
            assert forall|i: int, j: int| in_bounds(i, j) implies #[trigger] pixel_of(
                self.buf(),
                i,
                j,
            ) == (pixel_of(old(self).buf(), i, j) || (j == y as int && x as int <= i < x as int
                + width as int)) by {
                lemma_pixel_after_all_on(pts@, i, j, pixel_of(old(self).buf(), i, j));
            }
        }
        self.display()
    }

    /// Lights the `height`-pixel vertical run starting at (`x`, `y`), clipped
    /// to the panel, then flushes the framebuffer.
    pub fn draw_vertical_line(&mut self, x: u8, y: u8, height: u8) -> (r: Result<
        (),
        TransportError,
    >)
        ensures
            forall|i: int, j: int|
                in_bounds(i, j) ==> #[trigger] pixel_of(final(self).buf(), i, j) == (pixel_of(
                    old(self).buf(),
                    i,
                    j,
                ) || (i == x as int && y as int <= j < y as int + height as int)),
            r is Ok ==> final(self).sent() == old(self).sent() + display_txns(final(self).buf()),
            r is Err ==> exists|p: int, k: int|
                0 <= p < PAGE_COUNT as int && 0 <= k <= 4 && final(self).sent() == old(self).sent()
                    + display_txns_upto(final(self).buf(), p) + page_flush_txns(
                    final(self).buf(),
                    p,
                ).take(k),
    {
        let pts = rect_fill_pixels(x, y, 1, height);
        self.paint_pixels(pts.as_slice());
        proof {
            assert forall|i: int, j: int| in_bounds(i, j) implies #[trigger] pixel_of(
                self.buf(),
                i,
                j,
            ) == (pixel_of(old(self).buf(), i, j) || (i == x as int && y as int <= j < y as int
                + height as int)) by {
                lemma_pixel_after_all_on(pts@, i, j, pixel_of(old(self).buf(), i, j));
            }
        }
        self.display()
    }

    /// Lights the one-pixel border of the `width` by `height` rectangle at
    /// (`x`, `y`), clipped to the panel, then flushes the framebuffer.
    pub fn draw_rect(&mut self, x: u8, y: u8, width: u8, height: u8) -> (r: Result<
        (),
        TransportError,
    >)
        ensures
            forall|i: int, j: int|
                in_bounds(i, j) ==> #[trigger] pixel_of(final(self).buf(), i, j) == (pixel_of(
                    old(self).buf(),
                    i,
                    j,
                ) || on_rect_border(x as int, y as int, width as int, height as int, i, j)),
            r is Ok ==> final(self).sent() == old(self).sent() + display_txns(final(self).buf()),
            r is Err ==> exists|p: int, k: int|
                0 <= p < PAGE_COUNT as int && 0 <= k <= 4 && final(self).sent() == old(self).sent()
                    + display_txns_upto(final(self).buf(), p) + page_flush_txns(
                    final(self).buf(),
                    p,
                ).take(k),
    {
        let pts = rect_stroke_pixels(x, y, width, height);
        self.paint_pixels(pts.as_slice());
        proof {
            assert forall|i: int, j: int| in_bounds(i, j) implies #[trigger] pixel_of(
                self.buf(),
                i,
                j,
            ) == (pixel_of(old(self).buf(), i, j) || on_rect_border(
                x as int,
                y as int,
                width as int,
                height as int,
                i,
                j,
            )) by {
                lemma_pixel_after_all_on(pts@, i, j, pixel_of(old(self).buf(), i, j));
            }
        }
        self.display()
    }

    /// Lights every pixel of the `width` by `height` rectangle at (`x`, `y`),
    /// clipped to the panel, then flushes the framebuffer.
    pub fn fill_rect(&mut self, x: u8, y: u8, width: u8, height: u8) -> (r: Result<
        (),
        TransportError,
    >)
        ensures
            forall|i: int, j: int|
                in_bounds(i, j) ==> #[trigger] pixel_of(final(self).buf(), i, j) == (pixel_of(
                    old(self).buf(),
                    i,
                    j,
                ) || in_rect(x as int, y as int, width as int, height as int, i, j)),
            r is Ok ==> final(self).sent() == old(self).sent() + display_txns(final(self).buf()),
            r is Err ==> exists|p: int, k: int|
                0 <= p < PAGE_COUNT as int && 0 <= k <= 4 && final(self).sent() == old(self).sent()
                    + display_txns_upto(final(self).buf(), p) + page_flush_txns(
                    final(self).buf(),
                    p,
                ).take(k),
    {
        let pts = rect_fill_pixels(x, y, width, height);
        self.paint_pixels(pts.as_slice());
        proof {
            assert forall|i: int, j: int| in_bounds(i, j) implies #[trigger] pixel_of(
                self.buf(),
                i,
                j,
            ) == (pixel_of(old(self).buf(), i, j) || in_rect(
                x as int,
                y as int,
                width as int,
                height as int,
                i,
                j,
            )) by {
                lemma_pixel_after_all_on(pts@, i, j, pixel_of(old(self).buf(), i, j));
            }
        }
        self.display()
    }

    /// Lights the rasterized line from (`x0`, `y0`) to (`x1`, `y1`), clipped
    /// to the panel, then flushes the framebuffer.
    pub fn draw_line(&mut self, x0: i32, y0: i32, x1: i32, y1: i32) -> (r: Result<
        (),
        TransportError,
    >)
        ensures
            forall|i: int, j: int|
                in_bounds(i, j) ==> #[trigger] pixel_of(final(self).buf(), i, j) == (pixel_of(
                    old(self).buf(),
                    i,
                    j,
                ) || line_points(x0 as int, y0 as int, x1 as int, y1 as int).contains((i, j))),
            r is Ok ==> final(self).sent() == old(self).sent() + display_txns(final(self).buf()),
            r is Err ==> exists|p: int, k: int|
                0 <= p < PAGE_COUNT as int && 0 <= k <= 4 && final(self).sent() == old(self).sent()
                    + display_txns_upto(final(self).buf(), p) + page_flush_txns(
                    final(self).buf(),
                    p,
                ).take(k),
    {
        let pts = line_pixels(x0, y0, x1, y1);
        self.paint_pixels(pts.as_slice());
        proof {
            assert forall|i: int, j: int| in_bounds(i, j) implies #[trigger] pixel_of(
                self.buf(),
                i,
                j,
            ) == (pixel_of(old(self).buf(), i, j) || line_points(
                x0 as int,
                y0 as int,
                x1 as int,
                y1 as int,
            ).contains((i, j))) by {
                lemma_pixel_after_all_on(pts@, i, j, pixel_of(old(self).buf(), i, j));
            }
        }
        self.display()
    }

    /// Draws `text` in one run left to right, the first glyph's top-left
    /// corner at (`x`, `y`), in the given style, clipped to the panel, then
    /// flushes the framebuffer. Glyph pixels that are dark in the font leave
    /// the framebuffer untouched; lit ones are set to the style's pixel
    /// state.
    pub fn draw_text(&mut self, text: &str, x: i32, y: i32, style: TextStyle) -> (r: Result<
        (),
        TransportError,
    >)
        requires
            text@.len() * glyph_width(style.font) <= i32::MAX,
            x as int + text@.len() * glyph_width(style.font) <= i32::MAX,
            y as int + glyph_height(style.font) <= i32::MAX,
        ensures
            forall|i: int, j: int|
                in_bounds(i, j) ==> #[trigger] pixel_of(final(self).buf(), i, j) == if text_hits(
                    style.font,
                    text@,
                    x as int,
                    y as int,
                    i,
                    j,
                ) {
                    style.on
                } else {
                    pixel_of(old(self).buf(), i, j)
                },
            r is Ok ==> final(self).sent() == old(self).sent() + display_txns(final(self).buf()),
            r is Err ==> exists|p: int, k: int|
                0 <= p < PAGE_COUNT as int && 0 <= k <= 4 && final(self).sent() == old(self).sent()
                    + display_txns_upto(final(self).buf(), p) + page_flush_txns(
                    final(self).buf(),
                    p,
                ).take(k),
    {
        let pts = text_pixels(style.font, text, x, y, style.on);
        self.paint_pixels(pts.as_slice());
        proof {
            assert forall|i: int, j: int| in_bounds(i, j) implies #[trigger] pixel_of(
                self.buf(),
                i,
                j,
            ) == if text_hits(style.font, text@, x as int, y as int, i, j) {
                style.on
            } else {
                pixel_of(old(self).buf(), i, j)
            } by {
                crate::canvas::lemma_pixel_after_uniform(
                    pts@,
                    i,
                    j,
                    pixel_of(old(self).buf(), i, j),
                    style.on,
                );
            }
        }
        self.display()
    }

    /// Draws `text` in the small (6x10) font, lit, the first glyph's
    /// top-left corner at (`x`, `y`), then flushes the framebuffer.
    pub fn draw_text_small(&mut self, text: &str, x: i32, y: i32) -> (r: Result<
        (),
        TransportError,
    >)
        requires
            text@.len() * 6 <= i32::MAX,
            x as int + text@.len() * 6 <= i32::MAX,
            y as int + 10 <= i32::MAX,
        ensures
            forall|i: int, j: int|
                in_bounds(i, j) ==> #[trigger] pixel_of(final(self).buf(), i, j) == (pixel_of(
                    old(self).buf(),
                    i,
                    j,
                ) || text_hits(Font::Small, text@, x as int, y as int, i, j)),
            r is Ok ==> final(self).sent() == old(self).sent() + display_txns(final(self).buf()),
            r is Err ==> exists|p: int, k: int|
                0 <= p < PAGE_COUNT as int && 0 <= k <= 4 && final(self).sent() == old(self).sent()
                    + display_txns_upto(final(self).buf(), p) + page_flush_txns(
                    final(self).buf(),
                    p,
                ).take(k),
    {
        self.draw_text(text, x, y, TextStyles::small())
    }

    /// Draws `text` in the medium (8x13) font, lit, the first glyph's
    /// top-left corner at (`x`, `y`), then flushes the framebuffer.
    pub fn draw_text_medium(&mut self, text: &str, x: i32, y: i32) -> (r: Result<
        (),
        TransportError,
    >)
        requires
            text@.len() * 8 <= i32::MAX,
            x as int + text@.len() * 8 <= i32::MAX,
            y as int + 13 <= i32::MAX,
        ensures
            forall|i: int, j: int|
                in_bounds(i, j) ==> #[trigger] pixel_of(final(self).buf(), i, j) == (pixel_of(
                    old(self).buf(),
                    i,
                    j,
                ) || text_hits(Font::Medium, text@, x as int, y as int, i, j)),
            r is Ok ==> final(self).sent() == old(self).sent() + display_txns(final(self).buf()),
            r is Err ==> exists|p: int, k: int|
                0 <= p < PAGE_COUNT as int && 0 <= k <= 4 && final(self).sent() == old(self).sent()
                    + display_txns_upto(final(self).buf(), p) + page_flush_txns(
                    final(self).buf(),
                    p,
                ).take(k),
    {
        self.draw_text(text, x, y, TextStyles::medium())
    }

    /// Draws `text` in the small font, horizontally centered for glyphs
    /// `font_width` pixels wide, its top edge at `y`, then flushes the
    /// framebuffer. The left edge is `(128 - len * font_width) / 2`, rounded
    /// toward zero, and may fall left of the panel for text wider than it.
    pub fn draw_text_centered(&mut self, text: &str, y: i32, font_width: i32) -> (r: Result<
        (),
        TransportError,
    >)
        requires
            text@.len() * 6 <= i32::MAX,
            -(i32::MAX as int) <= text@.len() * (font_width as int) <= i32::MAX as int,
            centered_x(text@.len() as int, font_width as int) + text@.len() * 6 <= i32::MAX,
            y as int + 10 <= i32::MAX,
        ensures
            forall|i: int, j: int|
                in_bounds(i, j) ==> #[trigger] pixel_of(final(self).buf(), i, j) == (pixel_of(
                    old(self).buf(),
                    i,
                    j,
                ) || text_hits(
                    Font::Small,
                    text@,
                    centered_x(text@.len() as int, font_width as int),
                    y as int,
                    i,
                    j,
                )),
            r is Ok ==> final(self).sent() == old(self).sent() + display_txns(final(self).buf()),
            r is Err ==> exists|p: int, k: int|
                0 <= p < PAGE_COUNT as int && 0 <= k <= 4 && final(self).sent() == old(self).sent()
                    + display_txns_upto(final(self).buf(), p) + page_flush_txns(
                    final(self).buf(),
                    p,
                ).take(k),
    {
        let n = text.unicode_len();
        let text_width = (n as i64) * (font_width as i64);
        let x64: i64 = if text_width <= 128 {
            (((128 - text_width) as u64) / 2) as i64
        } else {
            -((((text_width - 128) as u64) / 2) as i64)
        };
        proof {
            assert(x64 as int == centered_x(text@.len() as int, font_width as int));
        }
        let x = x64 as i32;
        self.draw_text_small(text, x, y)
    }

    /// Selects inverted or normal rendering of the framebuffer contents; the
    /// framebuffer is untouched.
    pub fn set_invert(&mut self, invert: bool) -> (r: Result<(), TransportError>)
        ensures
            final(self).buf() == old(self).buf(),
            r is Ok ==> final(self).sent() == old(self).sent().push(
                command_txn(if invert { 0xA7u8 } else { 0xA6u8 }),
            ),
            r is Err ==> final(self).sent() == old(self).sent(),
    {
        if invert {
            self.send_command(0xA7)
        } else {
            self.send_command(0xA6)
        }
    }
}

impl<B: Bus> Canvas for Ssd1312<B> {
    open spec fn dims(&self) -> (int, int) {
        (SCREEN_WIDTH as int, SCREEN_HEIGHT as int)
    }

    open spec fn pix(&self, x: int, y: int) -> bool {
        pixel_of(self.buf(), x, y)
    }

    fn size(&self) -> (r: (u32, u32)) {
        (SCREEN_WIDTH as u32, SCREEN_HEIGHT as u32)
    }

    fn draw_iter(&mut self, pixels: &[Pixel])
        ensures
            final(self).bus == old(self).bus,
    {
        self.paint_pixels(pixels);
    }
}

} // verus!
