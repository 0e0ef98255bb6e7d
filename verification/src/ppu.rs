//! Pixel pipeline: a 4-state scanline state machine driven one clock tick at
//! a time, with a nested 4-state tile-fetch machine that reads tile-map and
//! tile-data bytes from the shared memory, decodes them into 2-bit pixel
//! values, and feeds a bounded FIFO that the outer machine drains to the
//! display sink.
//!
//! `ppu_step` and `fetch_step` are the mathematical transition functions of
//! the two machines; `tick` is proved to implement them exactly.

use vstd::prelude::*;

use crate::mmu::Mmu;
use crate::utils::RingBuffer;

verus! {

/// Clock ticks in one full scanline, all phases together.
pub const SCANLINE_TICKS: u16 = 456;

/// Visible scanlines per frame.
pub const SCREEN_LINES: u8 = 144;

/// Pixels per scanline.
pub const SCANLINE_PIXELS: u8 = 160;

/// Clock ticks spent in the object-search phase.
pub const OAM_SEARCH_TICKS: u16 = 40;

/// Memory-mapped register holding the current scanline index.
pub const LY_ADDR: u16 = 0xff44;

/// Phase of the scanline state machine.
#[derive(Clone, Copy, PartialEq, Eq, Structural, Debug)]
pub enum PpuState {
    OamSearch,
    PixelTransfer,
    HBlank,
    VBlank,
}

/// Phase of the tile-fetch state machine.
#[derive(Clone, Copy, PartialEq, Eq, Structural, Debug)]
pub enum FetcherState {
    ReadTileId,
    ReadTileData0,
    ReadTileData1,
    PushToFifo,
}

/// Display sink: renders each 2-bit pixel-color code through a fixed
/// 4-entry palette into an output stream of characters, with a newline as
/// the line and frame terminator.
pub struct Screen {
    pub palette: Vec<char>,
    pub out: Vec<char>,
}

/// Abstract state of the display sink.
#[verifier::ext_equal]
pub struct ScreenV {
    pub palette: Seq<char>,
    pub out: Seq<char>,
}

impl View for Screen {
    type V = ScreenV;

    open spec fn view(&self) -> ScreenV {
        ScreenV { palette: self.palette@, out: self.out@ }
    }
}

/// The sink after one pixel-color code `i`: the palette entry, doubled for
/// aspect, appended to the stream.
pub open spec fn screen_write(s: ScreenV, i: u8) -> ScreenV {
    ScreenV { out: s.out.push(s.palette[i as int]).push(s.palette[i as int]), ..s }
}

/// The sink after a line terminator.
pub open spec fn screen_line_end(s: ScreenV) -> ScreenV {
    ScreenV { out: s.out.push('\n'), ..s }
}

/// The sink after a frame terminator.
pub open spec fn screen_frame_end(s: ScreenV) -> ScreenV {
    ScreenV { out: s.out.push('\n'), ..s }
}

/// The fresh display sink.
pub open spec fn init_screen() -> ScreenV {
    ScreenV { palette: seq!['#', '+', '.', ' '], out: Seq::<char>::empty() }
}

impl Screen {
    /// The palette always has one entry per pixel-color code.
    pub open spec fn wf(&self) -> bool {
        self.palette@.len() == 4
    }

    /// A fresh sink with the fixed 4-entry palette and an empty stream.
    pub fn new() -> (r: Self)
        ensures
            r.wf(),
            r@ == init_screen(),
    {
        let mut palette: Vec<char> = Vec::new();
        palette.push('#');
        palette.push('+');
        palette.push('.');
        palette.push(' ');
        let r = Screen { palette, out: Vec::new() };
        proof {
            assert(r@ =~~= init_screen());
        }
        r
    }

    /// Renders one pixel-color code.
    pub fn write(&mut self, i: u8)
        requires
            old(self).wf(),
            i < 4,
        ensures
            final(self).wf(),
            final(self)@ == screen_write(old(self)@, i),
    {
        let p = self.palette[i as usize];
        self.out.push(p);
        self.out.push(p);
    }

    /// Ends the current line.
    pub fn h_blank(&mut self)
        requires
            old(self).wf(),
        ensures
            final(self).wf(),
            final(self)@ == screen_line_end(old(self)@),
    {
        self.out.push('\n');
    }

    /// Ends the current frame.
    pub fn v_blank(&mut self)
        requires
            old(self).wf(),
        ensures
            final(self).wf(),
            final(self)@ == screen_frame_end(old(self)@),
    {
        self.out.push('\n');
    }
}

/// Tile fetcher: reads one tile's identifier and two bit-planes from memory,
/// decodes 8 pixel values, and pushes them to the FIFO, one sub-step every
/// two outer ticks.
pub struct Fetcher {
    pub state: FetcherState,
    pub ticks: u8,
    pub tile_index: u8,
    pub tile_line: u8,
    pub tile_id: u8,
    pub map_addr: u16,
    pub tile_data: Vec<u8>,
    pub rb: RingBuffer,
}

/// Abstract state of the tile fetcher; `fifo` is the queued pixel stream,
/// oldest first.
#[verifier::ext_equal]
pub struct FetcherV {
    pub state: FetcherState,
    pub ticks: u8,
    pub tile_index: u8,
    pub tile_line: u8,
    pub tile_id: u8,
    pub map_addr: u16,
    pub tile_data: Seq<u8>,
    pub fifo: Seq<u8>,
}

impl View for Fetcher {
    type V = FetcherV;

    open spec fn view(&self) -> FetcherV {
        FetcherV {
            state: self.state,
            ticks: self.ticks,
            tile_index: self.tile_index,
            tile_line: self.tile_line,
            tile_id: self.tile_id,
            map_addr: self.map_addr,
            tile_data: self.tile_data@,
            fifo: self.rb@,
        }
    }
}

/// Address of the first bit-plane byte of line `tile_line` of tile
/// `tile_id` in the tile-data region.
pub open spec fn tile_data_addr(tile_id: u8, tile_line: u8) -> u16 {
    (0x8000 + (tile_id as u16) + (tile_line as u16) * 2) as u16
}

/// The 8 one-bit pixel components of a low bit-plane byte, bit `i` at
/// position `i`.
pub open spec fn low_bits(data: u8) -> Seq<u8> {
    Seq::new(8, |i: int| (data >> i) & 1)
}

/// The previous components combined with a high bit-plane byte:
/// `low | (high << 1)` at each position.
pub open spec fn combined_bits(prev: Seq<u8>, data: u8) -> Seq<u8> {
    Seq::new(8, |i: int| prev[i] | (((data >> i) & 1) << 1))
}

/// The 8 decoded pixel values in most-significant-first bit order.
pub open spec fn rev8(s: Seq<u8>) -> Seq<u8> {
    Seq::new(8, |i: int| s[7 - i])
}

/// One sub-step of the tile fetcher: every second call advances the fetch
/// state machine; the others only count.
pub open spec fn fetch_step(f: FetcherV, mem: Seq<u8>) -> FetcherV {
    let t = f.ticks.wrapping_add(1);
    if t < 2 {
        FetcherV { ticks: t, ..f }
    } else {
        let g = FetcherV { ticks: 0, ..f };
        match f.state {
            FetcherState::ReadTileId => (FetcherV {
                tile_id: mem[f.map_addr.wrapping_add(f.tile_index as u16) as int],
                state: FetcherState::ReadTileData0,
                ..g
            }),
            FetcherState::ReadTileData0 => (FetcherV {
                tile_data: low_bits(mem[tile_data_addr(f.tile_id, f.tile_line) as int]),
                state: FetcherState::ReadTileData1,
                ..g
            }),
            FetcherState::ReadTileData1 => (FetcherV {
                tile_data: combined_bits(
                    f.tile_data,
                    mem[tile_data_addr(f.tile_id, f.tile_line).wrapping_add(1) as int],
                ),
                state: FetcherState::PushToFifo,
                ..g
            }),
            FetcherState::PushToFifo => {
                if f.fifo.len() <= 8 {
                    FetcherV {
                        fifo: f.fifo + rev8(f.tile_data),
                        tile_index: f.tile_index.wrapping_add(1),
                        state: FetcherState::ReadTileId,
                        ..g
                    }
                } else {
                    g
                }
            },
        }
    }
}

/// The fetcher re-initialized for one scanline's row and line, FIFO
/// cleared.
pub open spec fn fetch_start(f: FetcherV, map_addr: u16, tile_line: u8) -> FetcherV {
    FetcherV {
        tile_index: 0,
        map_addr,
        tile_line,
        state: FetcherState::ReadTileId,
        fifo: Seq::<u8>::empty(),
        ..f
    }
}

/// The fresh fetcher.
pub open spec fn init_fetcher() -> FetcherV {
    FetcherV {
        state: FetcherState::ReadTileId,
        ticks: 0,
        tile_index: 0,
        tile_line: 0,
        tile_id: 0,
        map_addr: 0,
        tile_data: Seq::new(8, |i: int| 0u8),
        fifo: Seq::<u8>::empty(),
    }
}

proof fn lemma_low_bit_bounded(x: u8)
    ensures
        (x & 1) < 4,
{
    assert((x & 1) < 4) by (bit_vector);
}

proof fn lemma_combined_bounded(p: u8, x: u8)
    requires
        p < 4,
    ensures
        (p | (((x) & 1) << 1)) < 4,
{
    assert(p < 4 ==> (p | (((x) & 1) << 1)) < 4) by (bit_vector);
}

impl Fetcher {
    /// Shape every operation keeps: an 8-entry decode buffer and a
    /// 16-capacity FIFO, both holding 2-bit pixel values only.
    pub open spec fn wf(&self) -> bool {
        &&& self.tile_data@.len() == 8
        &&& (forall|j: int| 0 <= j < 8 ==> self.tile_data@[j] < 4)
        &&& self.rb.wf()
        &&& self.rb.cap == 16
        &&& (forall|j: int| 0 <= j < self.rb@.len() ==> self.rb@[j] < 4)
    }

    /// A fresh fetcher with a zeroed decode buffer and an empty FIFO.
    pub fn new() -> (r: Self)
        ensures
            r.wf(),
            r@ == init_fetcher(),
    {
        let mut tile_data: Vec<u8> = Vec::new();
        let mut i: usize = 0;
        while i < 8
            invariant
                i <= 8,
                tile_data@.len() == i,
                forall|j: int| 0 <= j < i ==> tile_data@[j] == 0u8,
            decreases 8 - i,
        {
            tile_data.push(0u8);
            i = i + 1;
        }
        let r = Fetcher {
            state: FetcherState::ReadTileId,
            ticks: 0,
            tile_index: 0,
            map_addr: 0,
            tile_id: 0,
            tile_line: 0,
            tile_data,
            rb: RingBuffer::new(16),
        };
        proof {
            assert(r@ =~~= init_fetcher());
        }
        r
    }

    /// One sub-step, exactly `fetch_step`: memory is only read, never
    /// written.
    pub fn tick(&mut self, mmu: &mut Mmu)
        requires
            old(self).wf(),
        ensures
            final(self).wf(),
            final(self)@ == fetch_step(old(self)@, old(mmu)@),
            final(mmu)@ == old(mmu)@,
    {
        self.ticks = self.ticks.wrapping_add(1);
        if self.ticks < 2 {
            return ;
        }
        self.ticks = 0;

        match self.state {
            FetcherState::ReadTileId => {
                self.tile_id = mmu.read_byte(self.map_addr.wrapping_add(self.tile_index as u16));
                self.state = FetcherState::ReadTileData0;
            },
            FetcherState::ReadTileData0 => {
                let addr = 0x8000 + (self.tile_id as u16) + (self.tile_line as u16) * 2;
                let data = mmu.read_byte(addr);
                let mut i: usize = 0;
                while i < 8
                    invariant
                        i <= 8,
                        self.tile_data@.len() == 8,
                        forall|j: int| 0 <= j < i ==> self.tile_data@[j] == low_bits(data)[j],
                        self.state == old(self).state,
                        self.ticks == 0,
                        self.tile_index == old(self).tile_index,
                        self.tile_line == old(self).tile_line,
                        self.tile_id == old(self).tile_id,
                        self.map_addr == old(self).map_addr,
                        self.rb == old(self).rb,
                    decreases 8 - i,
                {
                    self.tile_data[i] = (data >> i) & 1;
                    proof {
                        lemma_low_bit_bounded(data >> (i as int));
                    }
                    i = i + 1;
                }
                self.state = FetcherState::ReadTileData1;
                proof {
                    assert(self.tile_data@ =~= low_bits(data));
                    assert forall|j: int| 0 <= j < 8 implies self.tile_data@[j] < 4 by {
                        lemma_low_bit_bounded(data >> j);
                    }
                }
            },
            FetcherState::ReadTileData1 => {
                let addr = (0x8000 + (self.tile_id as u16) + (self.tile_line as u16) * 2)
                    .wrapping_add(1);
                let data = mmu.read_byte(addr);
                let ghost prev = self.tile_data@;
                let mut i: usize = 0;
                while i < 8
                    invariant
                        i <= 8,
                        self.tile_data@.len() == 8,
                        forall|j: int| 0 <= j < i ==> self.tile_data@[j] == combined_bits(prev, data)[j],
                        forall|j: int| i <= j < 8 ==> self.tile_data@[j] == prev[j],
                        forall|j: int| 0 <= j < 8 ==> prev[j] < 4,
                        self.state == old(self).state,
                        self.ticks == 0,
                        self.tile_index == old(self).tile_index,
                        self.tile_line == old(self).tile_line,
                        self.tile_id == old(self).tile_id,
                        self.map_addr == old(self).map_addr,
                        self.rb == old(self).rb,
                    decreases 8 - i,
                {
                    self.tile_data[i] = self.tile_data[i] | (((data >> i) & 1) << 1);
                    proof {
                        lemma_combined_bounded(prev[i as int], data >> (i as int));
                    }
                    i = i + 1;
                }
                self.state = FetcherState::PushToFifo;
                proof {
                    assert(self.tile_data@ =~= combined_bits(prev, data));
                    assert forall|j: int| 0 <= j < 8 implies self.tile_data@[j] < 4 by {
                        lemma_combined_bounded(prev[j], data >> j);
                    }
                }
            },
            FetcherState::PushToFifo => {
                if self.rb.size() <= 8 {
                    let ghost fifo0 = self.rb@;
                    let mut i: usize = 8;
                    while i > 0
                        invariant
                            i <= 8,
                            self.tile_data@.len() == 8,
                            forall|j: int| 0 <= j < 8 ==> self.tile_data@[j] < 4,
                            self.rb.wf(),
                            self.rb.cap == 16,
                            fifo0.len() <= 8,
                            self.rb@ == fifo0 + rev8(self.tile_data@).take(8 - i),
                            forall|j: int| 0 <= j < fifo0.len() ==> fifo0[j] < 4,
                            self.state == old(self).state,
                            self.ticks == 0,
                            self.tile_index == old(self).tile_index,
                            self.tile_line == old(self).tile_line,
                            self.tile_id == old(self).tile_id,
                            self.map_addr == old(self).map_addr,
                            self.tile_data == old(self).tile_data,
                        decreases i,
                    {
                        i = i - 1;
                        let e = self.tile_data[i];
                        self.rb.add(e);
                        proof {
                            assert(self.rb@ =~= fifo0 + rev8(self.tile_data@).take(8 - i));
                        }
                    }
                    self.tile_index = self.tile_index.wrapping_add(1);
                    self.state = FetcherState::ReadTileId;
                    proof {
                        assert(self.rb@ =~= fifo0 + rev8(self.tile_data@));
                    }
                }
            },
        }
        proof {
            assert(self@ =~~= fetch_step(old(self)@, old(mmu)@));
        }
    }

    /// Re-initializes the fetcher for one scanline: tile column 0, the given
    /// row address and in-tile line, FIFO cleared. Called once per scanline
    /// at the object-search → pixel-transfer boundary.
    pub fn start(&mut self, map_addr: u16, tile_line: u8)
        requires
            old(self).wf(),
        ensures
            final(self).wf(),
            final(self)@ == fetch_start(old(self)@, map_addr, tile_line),
    {
        self.tile_index = 0;
        self.map_addr = map_addr;
        self.tile_line = tile_line;
        self.state = FetcherState::ReadTileId;
        self.rb.clear();
        proof {
            assert(self@ =~~= fetch_start(old(self)@, map_addr, tile_line));
        }
    }
}

/// The scanline state machine with its nested fetcher and display sink.
pub struct Ppu {
    pub screen: Screen,
    pub ticks: u16,
    pub state: PpuState,
    pub ly: u8,
    pub x: u8,
    pub fetcher: Fetcher,
}

/// Abstract state of the pixel pipeline.
#[verifier::ext_equal]
pub struct PpuV {
    pub screen: ScreenV,
    pub ticks: u16,
    pub state: PpuState,
    pub ly: u8,
    pub x: u8,
    pub fetcher: FetcherV,
}

impl View for Ppu {
    type V = PpuV;

    open spec fn view(&self) -> PpuV {
        PpuV {
            screen: self.screen@,
            ticks: self.ticks,
            state: self.state,
            ly: self.ly,
            x: self.x,
            fetcher: self.fetcher@,
        }
    }
}

/// Tile-map row address for scanline `ly`.
pub open spec fn map_row_addr(ly: u8) -> u16 {
    (0x9800 + ((ly / 8) as u16) * 32) as u16
}

/// The fresh pixel pipeline: object search, scanline 0, column 0, tick 0.
pub open spec fn init_ppu() -> PpuV {
    PpuV {
        screen: init_screen(),
        ticks: 0,
        state: PpuState::OamSearch,
        ly: 0,
        x: 0,
        fetcher: init_fetcher(),
    }
}

/// One clock tick of the pixel pipeline: the pipeline and memory after it.
///
/// Object search lasts exactly 40 ticks, then re-initializes the fetcher for
/// the current scanline. Pixel transfer advances the fetcher each tick and,
/// once more than 8 pixels are pending, pops one to the sink; at column 160
/// the line ends. Blanking waits for the 456-tick line total, steps the
/// scanline index, writes it to the memory-mapped register, and loops the
/// machine: to vertical blank at line 144, and back to object search from
/// line 153.
pub open spec fn ppu_step(p: PpuV, mem: Seq<u8>) -> (PpuV, Seq<u8>) {
    let t = p.ticks.wrapping_add(1);
    match p.state {
        PpuState::OamSearch => {
            if t == OAM_SEARCH_TICKS {
                (
                    PpuV {
                        ticks: t,
                        x: 0,
                        fetcher: fetch_start(p.fetcher, map_row_addr(p.ly), p.ly % 8),
                        state: PpuState::PixelTransfer,
                        ..p
                    },
                    mem,
                )
            } else {
                (PpuV { ticks: t, ..p }, mem)
            }
        },
        PpuState::PixelTransfer => {
            let f1 = fetch_step(p.fetcher, mem);
            if f1.fifo.len() <= 8 {
                (PpuV { ticks: t, fetcher: f1, ..p }, mem)
            } else {
                let pixel = f1.fifo[0];
                let f2 = FetcherV { fifo: f1.fifo.drop_first(), ..f1 };
                let s1 = screen_write(p.screen, pixel);
                let x1 = p.x.wrapping_add(1);
                if x1 == SCANLINE_PIXELS {
                    (
                        PpuV {
                            ticks: t,
                            fetcher: f2,
                            screen: screen_line_end(s1),
                            x: x1,
                            state: PpuState::HBlank,
                            ..p
                        },
                        mem,
                    )
                } else {
                    (PpuV { ticks: t, fetcher: f2, screen: s1, x: x1, ..p }, mem)
                }
            }
        },
        PpuState::HBlank => {
            if t == SCANLINE_TICKS {
                let ly1 = p.ly.wrapping_add(1);
                let mem1 = mem.update(LY_ADDR as int, ly1);
                if ly1 == SCREEN_LINES {
                    (
                        PpuV {
                            ticks: 0,
                            ly: ly1,
                            screen: screen_frame_end(p.screen),
                            state: PpuState::VBlank,
                            ..p
                        },
                        mem1,
                    )
                } else {
                    (PpuV { ticks: 0, ly: ly1, state: PpuState::OamSearch, ..p }, mem1)
                }
            } else {
                (PpuV { ticks: t, ..p }, mem)
            }
        },
        PpuState::VBlank => {
            if t == SCANLINE_TICKS {
                let ly1 = p.ly.wrapping_add(1);
                let mem1 = mem.update(LY_ADDR as int, ly1);
                if ly1 == SCREEN_LINES + 9 {
                    (PpuV { ticks: 0, ly: 0, state: PpuState::OamSearch, ..p }, mem1)
                } else {
                    (PpuV { ticks: 0, ly: ly1, ..p }, mem1)
                }
            } else {
                (PpuV { ticks: t, ..p }, mem)
            }
        },
    }
}

/// `n` clock ticks of the pixel pipeline from `p` and `mem`.
pub open spec fn ppu_steps(p: PpuV, mem: Seq<u8>, n: nat) -> (PpuV, Seq<u8>)
    decreases n,
{
    if n == 0 {
        (p, mem)
    } else {
        let s = ppu_steps(p, mem, (n - 1) as nat);
        ppu_step(s.0, s.1)
    }
}

/// Law: from the start of a line, object search lasts exactly 40 ticks.
/// Fewer ticks only count; the 40th resets the pixel column, re-initializes
/// the fetcher for the current scanline's tile-map row and in-tile line, and
/// enters pixel transfer. Memory is untouched throughout.
pub proof fn lemma_object_search_duration(p: PpuV, mem: Seq<u8>, n: nat)
    requires
        p.state == PpuState::OamSearch,
        p.ticks == 0,
        n <= 40,
    ensures
        ppu_steps(p, mem, n).1 == mem,
        n < 40 ==> ppu_steps(p, mem, n).0 == (PpuV { ticks: n as u16, ..p }),
        n == 40 ==> ppu_steps(p, mem, n).0 == (PpuV {
            ticks: 40,
            x: 0,
            fetcher: fetch_start(p.fetcher, map_row_addr(p.ly), p.ly % 8),
            state: PpuState::PixelTransfer,
            ..p
        }),
    decreases n,
{
    if n == 0 {
        assert(ppu_steps(p, mem, n).0 =~~= (PpuV { ticks: 0u16, ..p }));
    } else {
        lemma_object_search_duration(p, mem, (n - 1) as nat);
    }
}

/// Law: the line total is 456 ticks. The tick in horizontal blank that
/// reaches it resets the tick counter, steps the scanline index, writes the
/// new index to the memory-mapped scanline register, and leaves for object
/// search — or for vertical blank when the visible lines are done.
pub proof fn lemma_line_boundary(p: PpuV, mem: Seq<u8>)
    requires
        p.state == PpuState::HBlank,
        p.ticks == SCANLINE_TICKS - 1,
    ensures
        ({
            let s = ppu_step(p, mem);
            &&& s.0.ticks == 0
            &&& s.0.ly == p.ly.wrapping_add(1)
            &&& s.1 == mem.update(LY_ADDR as int, p.ly.wrapping_add(1))
            &&& s.0.state == (if p.ly.wrapping_add(1) == SCREEN_LINES {
                PpuState::VBlank
            } else {
                PpuState::OamSearch
            })
        }),
{
}

/// Law: the frame wraps after the last blank line. The tick in vertical
/// blank that ends scanline 152 writes 153 to the scanline register, resets
/// the scanline index to 0, and re-enters object search.
pub proof fn lemma_frame_wrap(p: PpuV, mem: Seq<u8>)
    requires
        p.state == PpuState::VBlank,
        p.ticks == SCANLINE_TICKS - 1,
        p.ly == 152,
    ensures
        ({
            let s = ppu_step(p, mem);
            &&& s.0.ticks == 0
            &&& s.0.ly == 0
            &&& s.0.state == PpuState::OamSearch
            &&& s.1 == mem.update(LY_ADDR as int, 153u8)
        }),
{
}

impl Ppu {
    /// Shape every tick keeps: a well-formed fetcher and a 4-entry palette.
    pub open spec fn wf(&self) -> bool {
        &&& self.fetcher.wf()
        &&& self.screen.wf()
    }

    /// The pipeline at power-on.
    pub fn new() -> (r: Self)
        ensures
            r.wf(),
            r@ == init_ppu(),
    {
        let r = Ppu {
            screen: Screen::new(),
            ticks: 0,
            state: PpuState::OamSearch,
            ly: 0,
            x: 0,
            fetcher: Fetcher::new(),
        };
        proof {
            assert(r@ =~~= init_ppu());
        }
        r
    }

    /// One clock tick, exactly `ppu_step`.
    pub fn tick(&mut self, mmu: &mut Mmu)
        requires
            old(self).wf(),
        ensures
            final(self).wf(),
            final(self)@ == ppu_step(old(self)@, old(mmu)@).0,
            final(mmu)@ == ppu_step(old(self)@, old(mmu)@).1,
    {
        self.ticks = self.ticks.wrapping_add(1);

        match self.state {
            PpuState::OamSearch => {
                if self.ticks == OAM_SEARCH_TICKS {
                    self.x = 0;
                    let tile_line = self.ly % 8;
                    let tile_map_row_addr = 0x9800 + ((self.ly / 8) as u16) * 32;
                    self.fetcher.start(tile_map_row_addr, tile_line);
                    self.state = PpuState::PixelTransfer;
                }
                proof {
                    assert(self@ =~~= ppu_step(old(self)@, old(mmu)@).0);
                }
            },
            PpuState::PixelTransfer => {
                self.fetcher.tick(mmu);
                if self.fetcher.rb.size() <= 8 {
                    proof {
                        assert(self@ =~~= ppu_step(old(self)@, old(mmu)@).0);
                    }
                    return ;
                }
                let pixel = self.fetcher.rb.get();
                self.screen.write(pixel);
                self.x = self.x.wrapping_add(1);
                if self.x == SCANLINE_PIXELS {
                    self.screen.h_blank();
                    self.state = PpuState::HBlank;
                }
                proof {
                    assert(self@ =~~= ppu_step(old(self)@, old(mmu)@).0);
                }
            },
            PpuState::HBlank => {
                if self.ticks == SCANLINE_TICKS {
                    self.ticks = 0;
                    self.ly = self.ly.wrapping_add(1);
                    mmu.write_byte(LY_ADDR, self.ly);
                    if self.ly == SCREEN_LINES {
                        self.screen.v_blank();
                        self.state = PpuState::VBlank;
                    } else {
                        self.state = PpuState::OamSearch;
                    }
                }
                proof {
                    assert(self@ =~~= ppu_step(old(self)@, old(mmu)@).0);
                }
            },
            PpuState::VBlank => {
                if self.ticks == SCANLINE_TICKS {
                    self.ticks = 0;
                    self.ly = self.ly.wrapping_add(1);
                    mmu.write_byte(LY_ADDR, self.ly);
                    if self.ly == SCREEN_LINES + 9 {
                        self.ly = 0;
                        self.state = PpuState::OamSearch;
                    }
                }
                proof {
                    assert(self@ =~~= ppu_step(old(self)@, old(mmu)@).0);
                }
            },
        }
    }
}

} // verus!
