use vstd::prelude::*;

verus! {

/// Number of addressable bytes.
pub const MEMORY_SIZE: usize = 4096;

/// Width of the screen in pixels.
pub const SCREEN_WIDTH: usize = 64;

/// Height of the screen in pixels.
pub const SCREEN_HEIGHT: usize = 32;

/// Number of framebuffer cells, one per pixel.
pub const FRAMEBUFFER_SIZE: usize = 2048;

/// The big-endian 16-bit word stored at `i` and `i + 1`.
pub open spec fn word_at(bytes: Seq<u8>, i: int) -> u16 {
    (bytes[i] as int * 256 + bytes[i + 1] as int) as u16
}

/// `bytes` with the big-endian encoding of `v` written at `i` and `i + 1`.
pub open spec fn with_word(bytes: Seq<u8>, i: int, v: u16) -> Seq<u8> {
    bytes.update(i, (v / 256) as u8).update(i + 1, (v % 256) as u8)
}

/// Row-major framebuffer index of the pixel at column `x`, row `y`.
pub open spec fn pixel_index(x: int, y: int) -> int {
    y * SCREEN_WIDTH as int + x
}

/// A framebuffer with every cell cleared.
pub open spec fn blank_screen() -> Seq<u8> {
    Seq::new(FRAMEBUFFER_SIZE as nat, |_i: int| 0u8)
}

/// Writing a word and reading it back at the same place gives the word.
pub proof fn lemma_word_round_trip(bytes: Seq<u8>, i: int, v: u16)
    requires
        0 <= i,
        i + 1 < bytes.len(),
    ensures
        word_at(with_word(bytes, i, v), i) == v,
        with_word(bytes, i, v).len() == bytes.len(),
{
    let b = with_word(bytes, i, v);
    assert(b[i] == (v / 256) as u8);
    assert(b[i + 1] == (v % 256) as u8);
}

/// The machine's byte-addressable memory together with its monochrome
/// framebuffer.
#[derive(Debug)]
pub struct Memory {
    data: Vec<u8>,
    framebuffer: Vec<u8>,
}

impl Memory {
    /// The contents of the byte memory.
    pub closed spec fn bytes(&self) -> Seq<u8> {
        self.data@
    }

    /// The framebuffer cells, row-major.
    pub closed spec fn pixels(&self) -> Seq<u8> {
        self.framebuffer@
    }

    /// Both stores have their fixed sizes.
    pub open spec fn wf(&self) -> bool {
        &&& self.bytes().len() == MEMORY_SIZE
        &&& self.pixels().len() == FRAMEBUFFER_SIZE
    }

    /// A zero-filled memory and a cleared framebuffer.
    pub fn new() -> (r: Memory)
        ensures
            r.wf(),
            r.bytes() == Seq::new(MEMORY_SIZE as nat, |_i: int| 0u8),
            r.pixels() == blank_screen(),
    {
        let data = vec![0u8; MEMORY_SIZE];
        let framebuffer = vec![0u8; FRAMEBUFFER_SIZE];
        let r = Memory { data, framebuffer };
        assert(r.bytes() =~= Seq::new(MEMORY_SIZE as nat, |_i: int| 0u8));
        assert(r.pixels() =~= blank_screen());
        r
    }

    /// The byte at `index`.
    pub fn get8(&self, index: usize) -> (r: u8)
        requires
            self.wf(),
            index < MEMORY_SIZE,
        ensures
            r == self.bytes()[index as int],
    {
        self.data[index]
    }

    /// The big-endian word at `index` and `index + 1`.
    pub fn get16(&self, index: usize) -> (r: u16)
        requires
            self.wf(),
            index + 1 < MEMORY_SIZE,
        ensures
            r == word_at(self.bytes(), index as int),
    {
        let n1 = self.data[index] as u16;
        let n2 = self.data[index + 1] as u16;
        n1 * 256 + n2
    }

    /// Stores `value` at `index`.
    pub fn set8(&mut self, index: usize, value: u8)
        requires
            old(self).wf(),
            index < MEMORY_SIZE,
        ensures
            final(self).wf(),
            final(self).bytes() == old(self).bytes().update(index as int, value),
            final(self).pixels() == old(self).pixels(),
    {
        self.data.set(index, value);
    }

    /// Stores `value` big-endian at `index` and `index + 1`.
    pub fn set16(&mut self, index: usize, value: u16)
        requires
            old(self).wf(),
            index + 1 < MEMORY_SIZE,
        ensures
            final(self).wf(),
            final(self).bytes() == with_word(old(self).bytes(), index as int, value),
            final(self).pixels() == old(self).pixels(),
    {
        let n1 = (value / 256) as u8;
        let n2 = (value % 256) as u8;
        self.data.set(index, n1);
        self.data.set(index + 1, n2);
    }

    /// Stores `value` in the pixel at column `x`, row `y`.
    pub fn set8_framebuffer(&mut self, x: u8, y: u8, value: u8)
        requires
            old(self).wf(),
            x < SCREEN_WIDTH,
            y < SCREEN_HEIGHT,
        ensures
            final(self).wf(),
            final(self).pixels() == old(self).pixels().update(pixel_index(x as int, y as int), value),
            final(self).bytes() == old(self).bytes(),
    {
        let location = self.get_framebuffer_location(x as usize, y as usize);
        self.framebuffer.set(location, value);
    }

    /// The pixel at column `x`, row `y`.
    pub fn get8_framebuffer(&self, x: u8, y: u8) -> (r: u8)
        requires
            self.wf(),
            x < SCREEN_WIDTH,
            y < SCREEN_HEIGHT,
        ensures
            r == self.pixels()[pixel_index(x as int, y as int)],
    {
        self.framebuffer[self.get_framebuffer_location(x as usize, y as usize)]
    }

    /// Row-major framebuffer index of column `x`, row `y`.
    pub fn get_framebuffer_location(&self, x: usize, y: usize) -> (r: usize)
        requires
            y * SCREEN_WIDTH + x <= usize::MAX,
        ensures
            r == pixel_index(x as int, y as int),
    {
        (y * SCREEN_WIDTH) + x
    }

    /// Sets every framebuffer cell to 0 and leaves the byte memory alone.
    pub fn clear_framebuffer(&mut self)
        requires
            old(self).wf(),
        ensures
            final(self).wf(),
            final(self).pixels() == blank_screen(),
            final(self).bytes() == old(self).bytes(),
    {
        let mut i: usize = 0;
        while i < FRAMEBUFFER_SIZE
            invariant
                self.wf(),
                self.bytes() == old(self).bytes(),
                i <= FRAMEBUFFER_SIZE,
                forall|k: int| 0 <= k < i ==> self.pixels()[k] == 0,
            decreases FRAMEBUFFER_SIZE - i,
        {
            self.framebuffer.set(i, 0);
            i = i + 1;
        }
        assert(self.pixels() =~= blank_screen());
    }
}

} // verus!
