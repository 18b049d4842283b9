//! Next-piece generators: a shuffled bag of every kind, a bag of two of each,
//! a uniform pick that avoids an immediate repeat, and a history-based
//! generator driven by a linear congruential sequence.
use vstd::prelude::*;
use rand::seq::SliceRandom;
use crate::piece::{Piece, spawn_piece, spawn_pieces};
use crate::rotation::{RotationSystem, PIECE_KINDS};

verus! {

broadcast use vstd::seq_lib::group_to_multiset_ensures;

/// Relies on rand's `SliceRandom::shuffle` with `rand::thread_rng`: it only
/// swaps elements, so the same kinds come back in some order.
#[verifier::external_body]
fn shuffle_kinds(kinds: &mut Vec<usize>)
    ensures
        final(kinds)@.len() == old(kinds)@.len(),
        final(kinds)@.to_multiset() == old(kinds)@.to_multiset(),
{
    kinds.shuffle(&mut rand::thread_rng());
}

/// Relies on `rand::random`: any number may come back.
#[verifier::external_body]
fn random_number() -> (r: usize) {
    rand::random::<usize>()
}

/// Each kind once, in order.
pub open spec fn all_kinds() -> Seq<usize> {
    Seq::new(PIECE_KINDS as nat, |i: int| i as usize)
}

/// The kinds of a sequence of pieces.
pub open spec fn kinds_of(s: Seq<Piece>) -> Seq<usize> {
    s.map_values(|p: Piece| p.id)
}

/// Fresh pieces of the given kinds, in the same order.
fn pieces_of(pieces_data: &RotationSystem, kinds: &Vec<usize>, board_width: u8, board_height: u8) -> (r: Vec<Piece>)
    requires
        pieces_data.wf(),
        forall|i: int| 0 <= i < kinds@.len() ==> #[trigger] kinds@[i] < PIECE_KINDS,
    ensures
        r@.len() == kinds@.len(),
        forall|i: int|
            0 <= i < r@.len() ==> #[trigger] r@[i] == spawn_piece(
                *pieces_data,
                kinds@[i] as int,
                board_width as int,
                board_height as int,
            ),
        spawn_pieces(*pieces_data, board_width as int, board_height as int, r@),
        kinds_of(r@) == kinds@,
{
    let mut r: Vec<Piece> = Vec::new();
    let mut i: usize = 0;
    while i < kinds.len()
        invariant
            pieces_data.wf(),
            forall|j: int| 0 <= j < kinds@.len() ==> #[trigger] kinds@[j] < PIECE_KINDS,
            i <= kinds@.len(),
            r@.len() == i,
            forall|j: int|
                0 <= j < i ==> #[trigger] r@[j] == spawn_piece(
                    *pieces_data,
                    kinds@[j] as int,
                    board_width as int,
                    board_height as int,
                ),
        decreases kinds@.len() - i,
    {
        r.push(Piece::create(pieces_data, kinds[i], board_width, board_height));
        i += 1;
    }
    assert(kinds_of(r@) =~= kinds@);
    r
}

/// A sequence with the same multiset as one made of kinds holds only kinds.
proof fn lemma_kinds_in_range(s: Seq<usize>, t: Seq<usize>)
    requires
        s.to_multiset() == t.to_multiset(),
        forall|i: int| 0 <= i < t.len() ==> #[trigger] t[i] < PIECE_KINDS,
    ensures
        forall|i: int| 0 <= i < s.len() ==> #[trigger] s[i] < PIECE_KINDS,
{
    assert forall|i: int| 0 <= i < s.len() implies #[trigger] s[i] < PIECE_KINDS by {
        let k = s[i];
        assert(s.contains(k));
        vstd::seq_lib::to_multiset_contains(s, k);
        vstd::seq_lib::to_multiset_contains(t, k);
        let j = choose|j: int| 0 <= j < t.len() && t[j] == k;
        assert(t[j] < PIECE_KINDS);
    }
}

/// The kinds 0, 1, ..., in order.
fn kind_list() -> (r: Vec<usize>)
    ensures
        r@ == all_kinds(),
{
    let mut r: Vec<usize> = Vec::new();
    let mut k: usize = 0;
    while k < PIECE_KINDS
        invariant
            k <= PIECE_KINDS,
            r@ == Seq::new(k as nat, |i: int| i as usize),
        decreases PIECE_KINDS - k,
    {
        r.push(k);
        k += 1;
        assert(r@ =~= Seq::new(k as nat, |i: int| i as usize));
    }
    r
}

/// One of each kind per batch, shuffled.
pub struct Bag {}

/// Two of each kind per batch, shuffled together.
pub struct BagX2 {}

/// One uniform pick per batch, drawn again once if it repeats the last pick.
pub struct RandomWithoutDirectRepetition {
    /// The last kind handed out; a value past the kinds before the first pick.
    pub memory: usize,
}

/// A history of the last four kinds, and the state of the number sequence.
pub struct TGM {
    pub memory: Vec<usize>,
    pub seed: u32,
    /// The opening kind, at the front of the history, is still to be handed out.
    pub opening: bool,
}

impl Bag {
    pub fn create() -> (r: Bag) {
        Bag {}
    }

    /// Every kind exactly once, in a random order.
    pub fn populate_next(&mut self, pieces_data: &RotationSystem, board_width: u8, board_height: u8) -> (r: Vec<
        Piece,
    >)
        requires
            pieces_data.wf(),
        ensures
            r@.len() == PIECE_KINDS,
            spawn_pieces(*pieces_data, board_width as int, board_height as int, r@),
            kinds_of(r@).to_multiset() == all_kinds().to_multiset(),
    {
        let mut kinds = kind_list();
        shuffle_kinds(&mut kinds);
        proof {
            lemma_kinds_in_range(kinds@, all_kinds());
        }
        pieces_of(pieces_data, &kinds, board_width, board_height)
    }
}

impl BagX2 {
    pub fn create() -> (r: BagX2) {
        BagX2 {}
    }

    /// Every kind exactly twice, in a random order.
    pub fn populate_next(&mut self, pieces_data: &RotationSystem, board_width: u8, board_height: u8) -> (r: Vec<
        Piece,
    >)
        requires
            pieces_data.wf(),
        ensures
            r@.len() == 2 * PIECE_KINDS,
            spawn_pieces(*pieces_data, board_width as int, board_height as int, r@),
            kinds_of(r@).to_multiset() == all_kinds().to_multiset().add(all_kinds().to_multiset()),
    {
        let mut kinds = kind_list();
        let mut second = kind_list();
        kinds.append(&mut second);
        assert(kinds@ == all_kinds() + all_kinds());
        proof {
            vstd::seq_lib::lemma_multiset_commutative(all_kinds(), all_kinds());
        }
        shuffle_kinds(&mut kinds);
        proof {
            lemma_kinds_in_range(kinds@, all_kinds() + all_kinds());
        }
        pieces_of(pieces_data, &kinds, board_width, board_height)
    }
}

/// The kind picked from two draws after `memory`: the first, unless it repeats
/// `memory`, then the second.
pub open spec fn next_kind(memory: usize, first: usize, second: usize) -> usize {
    if first % PIECE_KINDS != memory {
        (first % PIECE_KINDS) as usize
    } else {
        (second % PIECE_KINDS) as usize
    }
}

impl RandomWithoutDirectRepetition {
    pub fn create() -> (r: RandomWithoutDirectRepetition)
        ensures
            r.memory >= PIECE_KINDS,
    {
        RandomWithoutDirectRepetition { memory: 65535 }
    }

    /// Picks a kind from two drawn numbers and remembers it.
    pub fn pick(&mut self, first: usize, second: usize) -> (r: usize)
        ensures
            r == next_kind(old(self).memory, first, second),
            r < PIECE_KINDS,
            final(self).memory == r,
    {
        let kind: usize = first % PIECE_KINDS;
        let kind: usize = if kind != self.memory {
            kind
        } else {
            second % PIECE_KINDS
        };
        self.memory = kind;
        kind
    }

    /// One piece, of a kind picked by `pick` from a random number, and from a
    /// second one drawn only where the first repeats the last kind.
    pub fn populate_next(&mut self, pieces_data: &RotationSystem, board_width: u8, board_height: u8) -> (r: Vec<
        Piece,
    >)
        requires
            pieces_data.wf(),
        ensures
            r@.len() == 1,
            spawn_pieces(*pieces_data, board_width as int, board_height as int, r@),
            final(self).memory == r@[0].id,
            exists|first: usize, second: usize| r@[0].id == next_kind(old(self).memory, first, second),
    {
        let first = random_number();
        let second = if first % PIECE_KINDS != self.memory {
            first
        } else {
            random_number()
        };
        let kind = self.pick(first, second);
        let mut kinds: Vec<usize> = Vec::new();
        kinds.push(kind);
        let r = pieces_of(pieces_data, &kinds, board_width, board_height);
        assert(r@[0].id == kinds_of(r@)[0]);
        r
    }
}

/// The state that follows `n` in the number sequence.
pub open spec fn lcg(n: u32) -> u32 {
    ((n as int * 0x41c64e6d + 12345) % 0x1_0000_0000) as u32
}

/// The fifteen bits of a state that serve as output.
pub open spec fn lcg_output(state: u32) -> u32 {
    ((state as int / 1024) % 32768) as u32
}

/// The seed and kind after drawing from `seed`, rejecting a kind held in
/// `memory` while `tries` is below 3.
pub open spec fn tgm_draw(seed: u32, memory: Seq<usize>, tries: int) -> (u32, usize)
    decreases 4 - tries,
{
    let s = lcg(seed);
    let b = (lcg_output(s) % 7) as usize;
    if tries >= 3 || !memory.contains(b) {
        (s, b)
    } else {
        tgm_draw(s, memory, tries + 1)
    }
}

/// The seed and kind of the opening draw: drawn again while the kind is 0, 4 or
/// 6, at most `fuel` times in all.
pub open spec fn tgm_opening(seed: u32, fuel: nat) -> (u32, usize)
    decreases fuel,
{
    let s = lcg(seed);
    let b = (lcg_output(s) % 7) as usize;
    if fuel <= 1 || !(b == 0 || b == 4 || b == 6) {
        (s, b)
    } else {
        tgm_opening(s, (fuel - 1) as nat)
    }
}

/// Draws of the opening kind before the last one is taken as it is.
pub const OPENING_DRAWS: u32 = 64;

impl TGM {
    pub open spec fn wf(&self) -> bool {
        &&& self.memory@.len() == 4
        &&& forall|i: int| 0 <= i < 4 ==> #[trigger] self.memory@[i] < PIECE_KINDS
    }

    /// The next state of the number sequence.
    pub fn random(n: u32) -> (r: u32)
        ensures
            r == lcg(n),
    {
        let m: u32 = n.wrapping_mul(0x41c64e6d);
        let r: u32 = m.wrapping_add(12345);
        proof {
            let a: int = n as int * 0x41c64e6d;
            assert(m == a % 0x1_0000_0000);
            assert(r == (m as int + 12345) % 0x1_0000_0000);
            vstd::arithmetic::div_mod::lemma_add_mod_noop(a, 12345, 0x1_0000_0000);
            assert(12345int % 0x1_0000_0000 == 12345);
        }
        assert(r & 0xffffffff == r) by (bit_vector);
        r & 0xffffffff
    }

    /// Advances the sequence and returns fifteen bits of the new state.
    pub fn read(&mut self) -> (r: u32)
        ensures
            final(self).seed == lcg(old(self).seed),
            final(self).memory == old(self).memory,
            final(self).opening == old(self).opening,
            r == lcg_output(lcg(old(self).seed)),
    {
        self.seed = TGM::random(self.seed);
        let s = self.seed;
        assert((s >> 10u32) & 0x7fffu32 == (s / 1024u32) % 32768u32) by (bit_vector);
        (self.seed >> 10) & 0x7fff
    }

    /// A generator seeded with `seed` (the time of day, say). Its opening kind,
    /// the first that it hands out, is drawn until it is none of 0, 4 and 6, at
    /// most `OPENING_DRAWS` times, and starts the history, padded with kind 0.
    pub fn create(seed: u32) -> (r: TGM)
        ensures
            r.wf(),
            r.seed == tgm_opening(seed, OPENING_DRAWS as nat).0,
            r.memory@ == seq![tgm_opening(seed, OPENING_DRAWS as nat).1, 0usize, 0usize, 0usize],
            r.opening,
    {
        let mut generator = TGM { memory: Vec::new(), seed, opening: true };
        let mut b: usize = (generator.read() % 7) as usize;
        let mut fuel: u32 = OPENING_DRAWS;
        while fuel > 1 && (b == 0 || b == 4 || b == 6)
            invariant
                generator.opening,
                1 <= fuel <= OPENING_DRAWS,
                b < 7,
                tgm_opening(seed, OPENING_DRAWS as nat) == if fuel <= 1 || !(b == 0 || b == 4 || b == 6) {
                    (generator.seed, b)
                } else {
                    tgm_opening(generator.seed, (fuel - 1) as nat)
                },
            decreases fuel,
        {
            b = (generator.read() % 7) as usize;
            fuel -= 1;
        }
        let mut memory: Vec<usize> = Vec::new();
        memory.push(b);
        memory.push(0);
        memory.push(0);
        memory.push(0);
        generator.memory = memory;
        assert(generator.memory@ =~= seq![b, 0usize, 0usize, 0usize]);
        generator
    }

    /// Whether `kind` is in the history.
    fn remembers(&self, kind: usize) -> (r: bool)
        ensures
            r == self.memory@.contains(kind),
    {
        let mut i: usize = 0;
        while i < self.memory.len()
            invariant
                i <= self.memory@.len(),
                forall|j: int| 0 <= j < i ==> self.memory@[j] != kind,
            decreases self.memory@.len() - i,
        {
            if self.memory[i] == kind {
                return true;
            }
            i += 1;
        }
        false
    }

    /// One piece: first the opening kind; after it, a kind in the history is
    /// drawn again, up to three times, and the fourth draw is taken as it is.
    /// A drawn kind enters the front of the history and the oldest entry leaves.
    pub fn populate_next(&mut self, pieces_data: &RotationSystem, board_width: u8, board_height: u8) -> (r: Vec<
        Piece,
    >)
        requires
            old(self).wf(),
            pieces_data.wf(),
        ensures
            final(self).wf(),
            r@.len() == 1,
            spawn_pieces(*pieces_data, board_width as int, board_height as int, r@),
            !final(self).opening,
            old(self).opening ==> r@[0].id == old(self).memory@[0] && final(self).seed == old(self).seed
                && final(self).memory == old(self).memory,
            !old(self).opening ==> r@[0].id == tgm_draw(old(self).seed, old(self).memory@, 0).1,
            !old(self).opening ==> final(self).seed == tgm_draw(old(self).seed, old(self).memory@, 0).0,
            !old(self).opening ==> final(self).memory@ == seq![r@[0].id] + old(self).memory@.drop_last(),
    {
        if self.opening {
            self.opening = false;
            let mut kinds: Vec<usize> = Vec::new();
            kinds.push(self.memory[0]);
            let r = pieces_of(pieces_data, &kinds, board_width, board_height);
            assert(r@[0].id == kinds_of(r@)[0]);
            return r;
        }
        let ghost start = *self;
        let mut tries: u32 = 0;
        let mut b: usize = (self.read() % 7) as usize;
        while tries < 3 && self.remembers(b)
            invariant
                tries <= 3,
                b < 7,
                self.wf(),
                !self.opening,
                self.memory == start.memory,
                tgm_draw(start.seed, start.memory@, 0) == if tries >= 3 || !start.memory@.contains(b) {
                    (self.seed, b)
                } else {
                    tgm_draw(self.seed, start.memory@, tries + 1)
                },
            decreases 3 - tries,
        {
            b = (self.read() % 7) as usize;
            tries += 1;
        }
        self.memory.pop();
        self.memory.insert(0, b);
        assert(self.memory@ =~= seq![b] + start.memory@.drop_last());
        let mut kinds: Vec<usize> = Vec::new();
        kinds.push(b);
        let r = pieces_of(pieces_data, &kinds, board_width, board_height);
        assert(r@[0].id == kinds_of(r@)[0]);
        r
    }
}

/// The next-piece generator of a game: one of the four strategies.
pub enum Randomizer {
    Bag(Bag),
    BagX2(BagX2),
    RandomWithoutDirectRepetition(RandomWithoutDirectRepetition),
    TGM(TGM),
}

impl Randomizer {
    pub open spec fn wf(&self) -> bool {
        match self {
            Randomizer::TGM(g) => g.wf(),
            _ => true,
        }
    }

    /// What a batch of `populate_next` holds, for the strategy of `before`,
    /// with `after` the generator that it leaves.
    pub open spec fn batch_ok(before: Randomizer, after: Randomizer, batch: Seq<Piece>) -> bool {
        match before {
            Randomizer::Bag(_) => {
                &&& after is Bag
                &&& batch.len() == PIECE_KINDS
                &&& kinds_of(batch).to_multiset() == all_kinds().to_multiset()
            },
            Randomizer::BagX2(_) => {
                &&& after is BagX2
                &&& batch.len() == 2 * PIECE_KINDS
                &&& kinds_of(batch).to_multiset() == all_kinds().to_multiset().add(all_kinds().to_multiset())
            },
            Randomizer::RandomWithoutDirectRepetition(g) => {
                &&& after matches Randomizer::RandomWithoutDirectRepetition(h)
                &&& batch.len() == 1
                &&& h.memory == batch[0].id
                &&& exists|first: usize, second: usize| batch[0].id == next_kind(g.memory, first, second)
            },
            Randomizer::TGM(g) => {
                &&& after matches Randomizer::TGM(h)
                &&& batch.len() == 1
                &&& !h.opening
                &&& g.opening ==> batch[0].id == g.memory@[0] && h.seed == g.seed && h.memory == g.memory
                &&& !g.opening ==> batch[0].id == tgm_draw(g.seed, g.memory@, 0).1 && h.seed == tgm_draw(
                    g.seed,
                    g.memory@,
                    0,
                ).0 && h.memory@ == seq![batch[0].id] + g.memory@.drop_last()
            },
        }
    }

    /// The next batch of fresh pieces from the chosen strategy.
    pub fn populate_next(&mut self, pieces_data: &RotationSystem, board_width: u8, board_height: u8) -> (r: Vec<
        Piece,
    >)
        requires
            old(self).wf(),
            pieces_data.wf(),
        ensures
            final(self).wf(),
            1 <= r@.len() <= 2 * PIECE_KINDS,
            spawn_pieces(*pieces_data, board_width as int, board_height as int, r@),
            Randomizer::batch_ok(*old(self), *final(self), r@),
    {
        match self {
            Randomizer::Bag(g) => g.populate_next(pieces_data, board_width, board_height),
            Randomizer::BagX2(g) => g.populate_next(pieces_data, board_width, board_height),
            Randomizer::RandomWithoutDirectRepetition(g) => g.populate_next(pieces_data, board_width, board_height),
            Randomizer::TGM(g) => g.populate_next(pieces_data, board_width, board_height),
        }
    }
}

} // verus!
