use vstd::prelude::*;
use rand::XorShiftRng;

verus! {

#[verifier::external_type_specification]
#[verifier::external_body]
pub struct ExXorShiftRng(rand::XorShiftRng);

/// The generator that `from_seed` builds from four seed words.
pub uninterp spec fn seeded_generator(seed: Seq<u32>) -> XorShiftRng;

/// The characters that `len` steps of the ASCII character stream yield from a
/// generator, and the generator after those steps.
pub uninterp spec fn ascii_draw(g: XorShiftRng, len: nat) -> (Seq<char>, XorShiftRng);

/// The value that one uniform draw from `[low, high)` yields from a generator,
/// and the generator after the draw.
pub uninterp spec fn range_draw(g: XorShiftRng, low: u64, high: u64) -> (u64, XorShiftRng);

/// The characters of the ASCII stream of the generator: `A`-`Z`, `a`-`z`, `0`-`9`.
pub open spec fn is_alphanumeric(c: char) -> bool {
    ('A' <= c && c <= 'Z') || ('a' <= c && c <= 'z') || ('0' <= c && c <= '9')
}

/// Printable ASCII: from the space to `~`.
pub open spec fn is_printable_ascii(c: char) -> bool {
    ' ' <= c && c <= '~'
}

/// Relies on `SeedableRng::<[u32; 4]>::from_seed` for rand's `XorShiftRng`: the
/// state is the four words themselves, so equal seeds give equal generators.
/// It panics on an all-zero seed, which `requires` leaves out.
#[verifier::external_body]
fn xorshift_from_seed(seed: [u32; 4]) -> (r: XorShiftRng)
    requires
        seed[0] != 0 || seed[1] != 0 || seed[2] != 0 || seed[3] != 0,
    ensures
        r == seeded_generator(seed@),
{
    <XorShiftRng as rand::SeedableRng<[u32; 4]>>::from_seed(seed)
}

/// Relies on `rand::weak_rng`: a generator seeded from the thread's entropy.
/// Nothing is promised of its state.
#[verifier::external_body]
fn xorshift_from_entropy() -> (r: XorShiftRng) {
    rand::weak_rng()
}

/// Relies on `Rng::gen_ascii_chars` of rand, taken `len` times: each character
/// is chosen from `A`-`Z`, `a`-`z`, `0`-`9`, and the stream depends on the
/// generator's state alone.
#[verifier::external_body]
fn xorshift_ascii(g: &mut XorShiftRng, len: usize) -> (r: String)
    ensures
        (r@, *final(g)) == ascii_draw(*old(g), len as nat),
        r@.len() == len,
        forall|i: int| 0 <= i < len ==> is_alphanumeric(#[trigger] r@[i]),
{
    rand::Rng::gen_ascii_chars(g).take(len).collect()
}

/// Relies on `Rng::gen_range` of rand on `u64`: a value in `[low, high)`,
/// determined by the generator's state. It panics when `low >= high`, which
/// `requires` leaves out.
#[verifier::external_body]
fn xorshift_range(g: &mut XorShiftRng, low: u64, high: u64) -> (r: u64)
    requires
        low < high,
    ensures
        (r, *final(g)) == range_draw(*old(g), low, high),
        low <= r < high,
{
    rand::Rng::gen_range(g, low, high)
}

/// The one pseudorandom generator of a rendering pass. Every draw goes through
/// it, so the values drawn depend only on the seed and on the order of draws.
pub struct RandomSource {
    generator: XorShiftRng,
}

impl RandomSource {
    /// The generator's current state.
    pub closed spec fn state(&self) -> XorShiftRng {
        self.generator
    }

    /// A source seeded with four words, not all zero.
    pub fn from_seed(seed: [u32; 4]) -> (r: RandomSource)
        requires
            seed[0] != 0 || seed[1] != 0 || seed[2] != 0 || seed[3] != 0,
        ensures
            r.state() == seeded_generator(seed@),
    {
        RandomSource { generator: xorshift_from_seed(seed) }
    }

    /// A source seeded from entropy: its draws differ from run to run.
    pub fn from_entropy() -> (r: RandomSource) {
        RandomSource { generator: xorshift_from_entropy() }
    }

    /// Draws `len` characters from `A`-`Z`, `a`-`z`, `0`-`9`, as one draw.
    pub fn ascii_string(&mut self, len: usize) -> (r: String)
        ensures
            (r@, final(self).state()) == ascii_draw(old(self).state(), len as nat),
            r@.len() == len,
            forall|i: int| 0 <= i < len ==> is_alphanumeric(#[trigger] r@[i]),
    {
        xorshift_ascii(&mut self.generator, len)
    }

    /// Draws one value uniformly from `[low, high)`.
    pub fn in_range(&mut self, low: u64, high: u64) -> (r: u64)
        requires
            low < high,
        ensures
            (r, final(self).state()) == range_draw(old(self).state(), low, high),
            low <= r < high,
    {
        xorshift_range(&mut self.generator, low, high)
    }
}

} // verus!
