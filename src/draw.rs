//! Sprite drawing: XOR-blitting rows of eight pixels onto the framebuffer,
//! with wrapping coordinates and collision detection.
use vstd::prelude::*;
use crate::machine::{VIDEO_WIDTH, VIDEO_HEIGHT, VIDEO_SIZE, MEMORY_SIZE};

verus! {

/// Whether pixel `dx` (0 is the leftmost, the most significant bit) of the
/// sprite row `b` is set.
pub open spec fn sprite_bit(b: u8, dx: int) -> bool {
    (b >> ((7 - dx) as u8)) & 1u8 == 1u8
}

/// Whether the cell at column `px`, row `py` is covered by a set pixel of the
/// `n`-row sprite read from `mem` at `i` and placed at `(x, y)`, coordinates
/// wrapping around the framebuffer's edges.
pub open spec fn sprite_covers(mem: Seq<u8>, i: int, x: int, y: int, n: int, px: int, py: int) -> bool {
    let dx = (px - x) % (VIDEO_WIDTH as int);
    let dy = (py - y) % (VIDEO_HEIGHT as int);
    dy < n && dx < 8 && sprite_bit(mem[i + dy], dx)
}

/// The framebuffer after the sprite is XORed onto it.
pub open spec fn drawn_video(video: Seq<bool>, mem: Seq<u8>, i: int, x: int, y: int, n: int) -> Seq<bool> {
    Seq::new(
        video.len(),
        |c: int|
            video[c] != sprite_covers(
                mem,
                i,
                x,
                y,
                n,
                c % (VIDEO_WIDTH as int),
                c / (VIDEO_WIDTH as int),
            ),
    )
}

/// Whether drawing the sprite turns off a lit pixel.
pub open spec fn draw_collides(video: Seq<bool>, mem: Seq<u8>, i: int, x: int, y: int, n: int) -> bool {
    exists|c: int|
        0 <= c < video.len() && #[trigger] video[c] && sprite_covers(
            mem,
            i,
            x,
            y,
            n,
            c % (VIDEO_WIDTH as int),
            c / (VIDEO_WIDTH as int),
        )
}

/// The cells covered by the rows before `rows`, and by the pixels before
/// `cols` of row `rows`.
spec fn covered_before(mem: Seq<u8>, i: int, x: int, y: int, rows: int, cols: int, c: int) -> bool {
    let dx = (c % (VIDEO_WIDTH as int) - x) % (VIDEO_WIDTH as int);
    let dy = (c / (VIDEO_WIDTH as int) - y) % (VIDEO_HEIGHT as int);
    (dy < rows || (dy == rows && dx < cols)) && dx < 8 && sprite_bit(mem[i + dy], dx)
}

/// Pixel `(dx, dy)` of a sprite at `(x, y)` lands on exactly one cell.
pub(crate) proof fn lemma_cell(x: int, y: int, dx: int, dy: int, c: int)
    requires
        0 <= x < 256,
        0 <= y < 256,
        0 <= dx < 8,
        0 <= dy < 16,
        0 <= c < VIDEO_SIZE,
    ensures
        ({
            let px = (x + dx) % 64;
            let py = (y + dy) % 32;
            let c0 = py * 64 + px;
            &&& 0 <= c0 < VIDEO_SIZE
            &&& c0 % 64 == px
            &&& c0 / 64 == py
            &&& (px - x) % 64 == dx
            &&& (py - y) % 32 == dy
            &&& ((c % 64 - x) % 64 == dx && (c / 64 - y) % 32 == dy) ==> c == c0
        }),
{
}

/// Taking in pixel `(dx, dy)` adds exactly its cell `c` to the covered cells.
proof fn lemma_next_pixel(m: Seq<u8>, i: int, x: int, y: int, dy: int, dx: int, c: int)
    requires
        0 <= x < 256,
        0 <= y < 256,
        0 <= dx < 8,
        0 <= dy < 16,
        c == ((y + dy) % 32) * 64 + (x + dx) % 64,
    ensures
        0 <= c < VIDEO_SIZE,
        !covered_before(m, i, x, y, dy, dx, c),
        forall|d: int|
            0 <= d < VIDEO_SIZE ==> #[trigger] covered_before(m, i, x, y, dy, dx + 1, d) == (
            covered_before(m, i, x, y, dy, dx, d) || (d == c && sprite_bit(m[i + dy], dx))),
{
    lemma_cell(x, y, dx, dy, 0);
    assert forall|d: int|
        0 <= d < VIDEO_SIZE implies #[trigger] covered_before(m, i, x, y, dy, dx + 1, d) == (
        covered_before(m, i, x, y, dy, dx, d) || (d == c && sprite_bit(m[i + dy], dx))) by {
        lemma_cell(x, y, dx, dy, d);
    }
}

/// XORs the `n`-row sprite held in `mem` at `i` onto `video` at `(x, y)`,
/// wrapping each coordinate; returns whether a lit pixel was turned off.
pub fn draw_sprite(video: &mut [bool; VIDEO_SIZE], mem: &[u8; MEMORY_SIZE], i: usize, x: u8, y: u8, n: u8) -> (collision: bool)
    requires
        n < 16,
        n == 0 || i + n <= MEMORY_SIZE,
    ensures
        final(video)@ == drawn_video(old(video)@, mem@, i as int, x as int, y as int, n as int),
        collision == draw_collides(old(video)@, mem@, i as int, x as int, y as int, n as int),
{
    let ghost v0 = video@;
    let ghost m = mem@;
    let mut collision = false;
    let mut dy: u8 = 0;
    while dy < n
        invariant
            dy <= n < 16,
            n == 0 || i + n <= m.len(),
            m == mem@,
            video@.len() == VIDEO_SIZE,
            v0.len() == VIDEO_SIZE,
            forall|c: int|
                0 <= c < VIDEO_SIZE ==> #[trigger] video@[c] == (v0[c] != covered_before(
                    m, i as int, x as int, y as int, dy as int, 0, c)),
            collision ==> exists|c: int|
                0 <= c < VIDEO_SIZE && #[trigger] v0[c] && covered_before(
                    m, i as int, x as int, y as int, dy as int, 0, c),
            !collision ==> forall|c: int|
                0 <= c < VIDEO_SIZE && #[trigger] v0[c] ==> !covered_before(
                    m, i as int, x as int, y as int, dy as int, 0, c),
        decreases n - dy,
    {
        assert(i + n <= m.len());
        let row = mem[i + dy as usize];
        let py = (y as usize + dy as usize) % VIDEO_HEIGHT;
        let mut dx: u8 = 0;
        while dx < 8
            invariant
                dy < n < 16,
                dx <= 8,
                i + n <= m.len(),
                m == mem@,
                row == m[i + dy],
                py == (y + dy) % 32,
                video@.len() == VIDEO_SIZE,
                v0.len() == VIDEO_SIZE,
                forall|c: int|
                    0 <= c < VIDEO_SIZE ==> #[trigger] video@[c] == (v0[c] != covered_before(
                        m, i as int, x as int, y as int, dy as int, dx as int, c)),
                collision ==> exists|c: int|
                    0 <= c < VIDEO_SIZE && #[trigger] v0[c] && covered_before(
                        m, i as int, x as int, y as int, dy as int, dx as int, c),
                !collision ==> forall|c: int|
                    0 <= c < VIDEO_SIZE && #[trigger] v0[c] ==> !covered_before(
                        m, i as int, x as int, y as int, dy as int, dx as int, c),
            decreases 8 - dx,
        {
            let px = (x as usize + dx as usize) % VIDEO_WIDTH;
            let c = py * VIDEO_WIDTH + px;
            proof {
                lemma_next_pixel(m, i as int, x as int, y as int, dy as int, dx as int, c as int);
            }
            if (row >> (7 - dx)) & 1 == 1 {
                let lit = video[c];
                if lit {
                    collision = true;
                }
                video[c] = !lit;
            }
            dx = dx + 1;
        }
        proof {
            assert forall|d: int| 0 <= d < VIDEO_SIZE implies
                covered_before(m, i as int, x as int, y as int, dy + 1, 0, d)
                    == covered_before(m, i as int, x as int, y as int, dy as int, 8, d) by {
                let ddx = (d % 64 - x) % 64;
                assert(0 <= ddx < 64);
            }
        }
        dy = dy + 1;
    }
    proof {
        assert forall|d: int| 0 <= d < VIDEO_SIZE implies
            covered_before(m, i as int, x as int, y as int, n as int, 0, d)
                == sprite_covers(m, i as int, x as int, y as int, n as int, d % 64, d / 64) by {}
        assert(video@ =~= drawn_video(v0, m, i as int, x as int, y as int, n as int));
    }
    collision
}

} // verus!
