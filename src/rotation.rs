//! Rotation systems: per piece kind, the cells of each orientation, the wall
//! kick candidates of each rotation, spawn offsets, skins and the lock delay
//! policy that the system calls for.
use vstd::prelude::*;
use vstd::string::StringSliceAdditionalSpecFns;

verus! {

/// Number of piece kinds in every rotation system.
pub const PIECE_KINDS: usize = 7;

/// Number of orientations of every piece kind.
pub const ORIENTATIONS: usize = 4;

/// Index of the clockwise candidate list in a kick table entry.
pub const CLOCKWISE: usize = 0;

/// Index of the counter-clockwise candidate list in a kick table entry.
pub const COUNTER_CLOCKWISE: usize = 1;

/// How a resting piece's lock delay behaves.
#[derive(Clone, Copy, Debug, PartialEq, Eq, Structural)]
pub enum LockDelayMode {
    /// A resting piece locks on the tick it comes to rest.
    Disabled,
    /// A piece locks when gravity presses it into the floor while it already rested.
    Gravity,
    /// The countdown runs while resting and refills when the piece lifts off.
    ResetOnYChange,
    /// As `ResetOnYChange`, and moves or rotations refill it a limited number of times.
    ResetOnMovementLimited,
    /// As `ResetOnYChange`, and moves or rotations refill it without limit.
    ResetOnMovement,
}

/// The immutable tables of one rotation system.
pub struct RotationSystem {
    /// `pieces[kind][orientation]`: the occupied cells, relative to the piece origin.
    pub pieces: Vec<Vec<Vec<(i8, i8)>>>,
    /// `kicks[kind][orientation][direction]`: offsets tried in order when rotating.
    pub kicks: Vec<Vec<Vec<Vec<(i8, i8)>>>>,
    /// Per kind, added to the centred spawn position.
    pub spawn_offsets: Vec<(i8, i8)>,
    /// Per kind, the skin that its cells are drawn with.
    pub colours: Vec<u8>,
    /// Added to the board height to get the spawn row.
    pub height_offset: i8,
    pub lock_delay_mode: LockDelayMode,
}

/// A cell or kick offset stays within four cells of the origin.
pub open spec fn offset_ok(o: (i8, i8)) -> bool {
    -4 <= o.0 <= 4 && -4 <= o.1 <= 4
}

/// A non-empty list of offsets, each within bounds.
pub open spec fn offsets_ok(s: Seq<(i8, i8)>) -> bool {
    &&& s.len() >= 1
    &&& forall|i: int| 0 <= i < s.len() ==> offset_ok(#[trigger] s[i])
}

/// The tables of one kind: four orientations of cells, and two kick lists per orientation.
pub open spec fn kind_tables_ok(cells: Seq<Vec<(i8, i8)>>, kicks: Seq<Vec<Vec<(i8, i8)>>>) -> bool {
    &&& cells.len() == ORIENTATIONS
    &&& kicks.len() == ORIENTATIONS
    &&& forall|o: int| 0 <= o < ORIENTATIONS ==> offsets_ok(#[trigger] cells[o]@) && cells[o]@.len() == 4
    &&& forall|o: int| 0 <= o < ORIENTATIONS ==> (#[trigger] kicks[o])@.len() == 2
    &&& forall|o: int, d: int|
        0 <= o < ORIENTATIONS && 0 <= d < 2 ==> offsets_ok(#[trigger] kicks[o]@[d]@)
}

/// Every kick list of a kind has `n` candidates, the first of which keeps the
/// piece in place.
pub open spec fn kicks_shaped(kicks: Seq<Vec<Vec<(i8, i8)>>>, n: nat) -> bool {
    forall|o: int, d: int|
        0 <= o < ORIENTATIONS && 0 <= d < 2 ==> (#[trigger] kicks[o]@[d]@).len() == n && kicks[o]@[d]@[0] == (
            0i8,
            0i8,
        )
}

impl RotationSystem {
    /// The cells of `kind` in `orientation`.
    pub open spec fn cells(&self, kind: int, orientation: int) -> Seq<(i8, i8)> {
        self.pieces@[kind]@[orientation]@
    }

    /// The kick candidates of `kind` rotating from `orientation` in `direction`.
    pub open spec fn kick_list(&self, kind: int, orientation: int, direction: int) -> Seq<(i8, i8)> {
        self.kicks@[kind]@[orientation]@[direction]@
    }

    pub open spec fn wf(&self) -> bool {
        &&& self.pieces@.len() == PIECE_KINDS
        &&& self.kicks@.len() == PIECE_KINDS
        &&& self.spawn_offsets@.len() == PIECE_KINDS
        &&& self.colours@.len() == PIECE_KINDS
        &&& -8 <= self.height_offset <= 8
        &&& forall|k: int| 0 <= k < PIECE_KINDS ==> offset_ok(#[trigger] self.spawn_offsets@[k])
        &&& forall|k: int|
            0 <= k < PIECE_KINDS ==> kind_tables_ok(#[trigger] self.pieces@[k]@, self.kicks@[k]@)
    }

    /// The Super Rotation System: five kick candidates per rotation (one for the
    /// square), and lock delay refilled by a limited number of moves.
    pub fn srs() -> (r: RotationSystem)
        ensures
            r.wf(),
            r.lock_delay_mode == LockDelayMode::ResetOnMovementLimited,
            forall|k: int| 0 <= k < 6 ==> kicks_shaped(#[trigger] r.kicks@[k]@, 5),
            kicks_shaped(r.kicks@[6]@, 1),
            r.height_offset == -2,
            forall|k: int| 0 <= k < PIECE_KINDS ==> #[trigger] r.spawn_offsets@[k] == (0i8, 0i8),
            forall|k: int| 0 <= k < PIECE_KINDS ==> #[trigger] r.colours@[k] == k,
    {
        let mut pieces: Vec<Vec<Vec<(i8, i8)>>> = Vec::new();
        let mut kicks: Vec<Vec<Vec<Vec<(i8, i8)>>>> = Vec::new();
        let (c, k) = srs_z();
        pieces.push(c);
        kicks.push(k);
        let (c, k) = srs_j();
        pieces.push(c);
        kicks.push(k);
        let (c, k) = srs_l();
        pieces.push(c);
        kicks.push(k);
        let (c, k) = srs_i();
        pieces.push(c);
        kicks.push(k);
        let (c, k) = srs_s();
        pieces.push(c);
        kicks.push(k);
        let (c, k) = srs_t();
        pieces.push(c);
        kicks.push(k);
        let (c, k) = srs_o();
        pieces.push(c);
        kicks.push(k);
        RotationSystem {
            pieces,
            kicks,
            spawn_offsets: centred_spawns(),
            colours: skins(),
            height_offset: -2,
            lock_delay_mode: LockDelayMode::ResetOnMovementLimited,
        }
    }

    /// The Arika rotation system: a kick one cell right, then one cell left
    /// (none for the bar and the square), and lock delay refilled only when the
    /// piece lifts off.
    pub fn ars() -> (r: RotationSystem)
        ensures
            r.wf(),
            r.lock_delay_mode == LockDelayMode::ResetOnYChange,
            forall|k: int| 0 <= k < 6 && k != 3 ==> kicks_shaped(#[trigger] r.kicks@[k]@, 3),
            kicks_shaped(r.kicks@[3]@, 1),
            kicks_shaped(r.kicks@[6]@, 1),
            r.height_offset == -2,
            forall|k: int| 0 <= k < PIECE_KINDS ==> #[trigger] r.spawn_offsets@[k] == (0i8, 0i8),
            forall|k: int| 0 <= k < PIECE_KINDS ==> #[trigger] r.colours@[k] == k,
    {
        let mut pieces: Vec<Vec<Vec<(i8, i8)>>> = Vec::new();
        let mut kicks: Vec<Vec<Vec<Vec<(i8, i8)>>>> = Vec::new();
        let (c, k) = ars_z();
        pieces.push(c);
        kicks.push(k);
        let (c, k) = ars_j();
        pieces.push(c);
        kicks.push(k);
        let (c, k) = ars_l();
        pieces.push(c);
        kicks.push(k);
        let (c, k) = ars_i();
        pieces.push(c);
        kicks.push(k);
        let (c, k) = ars_s();
        pieces.push(c);
        kicks.push(k);
        let (c, k) = ars_t();
        pieces.push(c);
        kicks.push(k);
        let (c, k) = ars_o();
        pieces.push(c);
        kicks.push(k);
        RotationSystem {
            pieces,
            kicks,
            spawn_offsets: centred_spawns(),
            colours: skins(),
            height_offset: -2,
            lock_delay_mode: LockDelayMode::ResetOnYChange,
        }
    }
}

/// The name of the Super Rotation System: "SRS".
pub open spec fn srs_name() -> Seq<u8> {
    seq![83u8, 82u8, 83u8]
}

/// The name of the Arika rotation system: "ARS".
pub open spec fn ars_name() -> Seq<u8> {
    seq![65u8, 82u8, 83u8]
}

/// A rotation system of that name exists.
pub open spec fn known_name(name: Seq<u8>) -> bool {
    name == srs_name() || name == ars_name()
}

impl RotationSystem {
    /// The rotation system called `name`, if there is one.
    pub fn lookup(name: &str) -> (r: Option<RotationSystem>)
        ensures
            r is Some <==> known_name(name.spec_bytes()),
            r matches Some(rs) ==> rs.wf(),
            name.spec_bytes() == srs_name() ==> (r matches Some(rs) && rs.lock_delay_mode
                == LockDelayMode::ResetOnMovementLimited),
            name.spec_bytes() == ars_name() ==> (r matches Some(rs) && rs.lock_delay_mode
                == LockDelayMode::ResetOnYChange),
    {
        let b = name.as_bytes();
        if b.len() != 3 || b[1] != 82u8 || b[2] != 83u8 {
            proof {
                if name.spec_bytes().len() == 3 {
                    assert(name.spec_bytes()[1] != 82u8 || name.spec_bytes()[2] != 83u8);
                }
                assert(!known_name(name.spec_bytes()));
            }
            return None;
        }
        if b[0] == 83u8 {
            assert(name.spec_bytes() =~= srs_name());
            Some(RotationSystem::srs())
        } else if b[0] == 65u8 {
            assert(name.spec_bytes() =~= ars_name());
            Some(RotationSystem::ars())
        } else {
            assert(name.spec_bytes()[0] != 83u8 && name.spec_bytes()[0] != 65u8);
            None
        }
    }
}

fn centred_spawns() -> (r: Vec<(i8, i8)>)
    ensures
        r@.len() == PIECE_KINDS,
        forall|k: int| 0 <= k < PIECE_KINDS ==> #[trigger] r@[k] == (0i8, 0i8),
{
    let mut r: Vec<(i8, i8)> = Vec::new();
    let mut k: usize = 0;
    while k < PIECE_KINDS
        invariant
            k <= PIECE_KINDS,
            r@.len() == k,
            forall|j: int| 0 <= j < k ==> #[trigger] r@[j] == (0i8, 0i8),
        decreases PIECE_KINDS - k,
    {
        r.push((0, 0));
        k += 1;
    }
    r
}

fn skins() -> (r: Vec<u8>)
    ensures
        r@.len() == PIECE_KINDS,
        forall|k: int| 0 <= k < PIECE_KINDS ==> #[trigger] r@[k] == k,
{
    let mut r: Vec<u8> = Vec::new();
    let mut k: u8 = 0;
    while k < 7
        invariant
            k <= 7,
            r@.len() == k,
            forall|j: int| 0 <= j < k ==> #[trigger] r@[j] == j,
        decreases 7 - k,
    {
        r.push(k);
        k += 1;
    }
    r
}

fn shape(a: (i8, i8), b: (i8, i8), c: (i8, i8), d: (i8, i8)) -> (r: Vec<(i8, i8)>)
    requires
        offset_ok(a),
        offset_ok(b),
        offset_ok(c),
        offset_ok(d),
    ensures
        r@ == seq![a, b, c, d],
        offsets_ok(r@),
{
    let mut r: Vec<(i8, i8)> = Vec::new();
    r.push(a);
    r.push(b);
    r.push(c);
    r.push(d);
    r
}

fn offsets1(a: (i8, i8)) -> (r: Vec<(i8, i8)>)
    requires
        offset_ok(a),
    ensures
        r@ == seq![a],
        offsets_ok(r@),
{
    let mut r: Vec<(i8, i8)> = Vec::new();
    r.push(a);
    r
}

fn offsets3(a: (i8, i8), b: (i8, i8), c: (i8, i8)) -> (r: Vec<(i8, i8)>)
    requires
        offset_ok(a),
        offset_ok(b),
        offset_ok(c),
    ensures
        r@ == seq![a, b, c],
        offsets_ok(r@),
{
    let mut r: Vec<(i8, i8)> = Vec::new();
    r.push(a);
    r.push(b);
    r.push(c);
    r
}

fn offsets5(a: (i8, i8), b: (i8, i8), c: (i8, i8), d: (i8, i8), e: (i8, i8)) -> (r: Vec<(i8, i8)>)
    requires
        offset_ok(a),
        offset_ok(b),
        offset_ok(c),
        offset_ok(d),
        offset_ok(e),
    ensures
        r@ == seq![a, b, c, d, e],
        offsets_ok(r@),
{
    let mut r: Vec<(i8, i8)> = Vec::new();
    r.push(a);
    r.push(b);
    r.push(c);
    r.push(d);
    r.push(e);
    r
}

fn orientations(
    s0: Vec<(i8, i8)>,
    s1: Vec<(i8, i8)>,
    s2: Vec<(i8, i8)>,
    s3: Vec<(i8, i8)>,
) -> (r: Vec<Vec<(i8, i8)>>)
    requires
        offsets_ok(s0@) && s0@.len() == 4,
        offsets_ok(s1@) && s1@.len() == 4,
        offsets_ok(s2@) && s2@.len() == 4,
        offsets_ok(s3@) && s3@.len() == 4,
    ensures
        r@.len() == ORIENTATIONS,
        forall|o: int| 0 <= o < ORIENTATIONS ==> offsets_ok(#[trigger] r@[o]@) && r@[o]@.len() == 4,
{
    let mut r: Vec<Vec<(i8, i8)>> = Vec::new();
    r.push(s0);
    r.push(s1);
    r.push(s2);
    r.push(s3);
    r
}

fn pair(cw: Vec<(i8, i8)>, ccw: Vec<(i8, i8)>) -> (r: Vec<Vec<(i8, i8)>>)
    requires
        offsets_ok(cw@),
        offsets_ok(ccw@),
    ensures
        r@.len() == 2,
        forall|d: int| 0 <= d < 2 ==> offsets_ok(#[trigger] r@[d]@),
        r@[0]@ == cw@,
        r@[1]@ == ccw@,
{
    let mut r: Vec<Vec<(i8, i8)>> = Vec::new();
    r.push(cw);
    r.push(ccw);
    r
}

#[verifier::rlimit(40)]
fn transitions(
    cw0: Vec<(i8, i8)>,
    ccw0: Vec<(i8, i8)>,
    cw1: Vec<(i8, i8)>,
    ccw1: Vec<(i8, i8)>,
    cw2: Vec<(i8, i8)>,
    ccw2: Vec<(i8, i8)>,
    cw3: Vec<(i8, i8)>,
    ccw3: Vec<(i8, i8)>,
) -> (r: Vec<Vec<Vec<(i8, i8)>>>)
    requires
        offsets_ok(cw0@),
        offsets_ok(ccw0@),
        offsets_ok(cw1@),
        offsets_ok(ccw1@),
        offsets_ok(cw2@),
        offsets_ok(ccw2@),
        offsets_ok(cw3@),
        offsets_ok(ccw3@),
    ensures
        r@.len() == ORIENTATIONS,
        forall|o: int| 0 <= o < ORIENTATIONS ==> (#[trigger] r@[o])@.len() == 2,
        forall|o: int, d: int|
            0 <= o < ORIENTATIONS && 0 <= d < 2 ==> offsets_ok(#[trigger] r@[o]@[d]@),
        r@[0]@[0]@ == cw0@ && r@[0]@[1]@ == ccw0@,
        r@[1]@[0]@ == cw1@ && r@[1]@[1]@ == ccw1@,
        r@[2]@[0]@ == cw2@ && r@[2]@[1]@ == ccw2@,
        r@[3]@[0]@ == cw3@ && r@[3]@[1]@ == ccw3@,
{
    let mut r: Vec<Vec<Vec<(i8, i8)>>> = Vec::new();
    r.push(pair(cw0, ccw0));
    r.push(pair(cw1, ccw1));
    r.push(pair(cw2, ccw2));
    r.push(pair(cw3, ccw3));
    r
}

fn srs_z() -> (r: (Vec<Vec<(i8, i8)>>, Vec<Vec<Vec<(i8, i8)>>>))
    ensures
        kind_tables_ok(r.0@, r.1@),
        kicks_shaped(r.1@, 5),
{
    let cells = orientations(
        shape((0, 3), (1, 3), (1, 2), (2, 2)),
        shape((2, 3), (1, 2), (2, 2), (1, 1)),
        shape((0, 2), (1, 2), (1, 1), (2, 1)),
        shape((1, 3), (0, 2), (1, 2), (0, 1)),
    );
    let kicks = transitions(
        offsets5((0, 0), (-1, 0), (-1, 1), (0, -2), (-1, -2)), offsets5((0, 0), (1, 0), (1, 1), (0, -2), (1, -2)),
        offsets5((0, 0), (1, 0), (1, -1), (0, 2), (1, 2)), offsets5((0, 0), (1, 0), (1, -1), (0, 2), (1, 2)),
        offsets5((0, 0), (1, 0), (1, 1), (0, -2), (1, -2)), offsets5((0, 0), (-1, 0), (-1, 1), (0, -2), (-1, -2)),
        offsets5((0, 0), (-1, 0), (-1, -1), (0, 2), (-1, 2)), offsets5((0, 0), (-1, 0), (-1, -1), (0, 2), (-1, 2)),
    );
    (cells, kicks)
}

fn srs_j() -> (r: (Vec<Vec<(i8, i8)>>, Vec<Vec<Vec<(i8, i8)>>>))
    ensures
        kind_tables_ok(r.0@, r.1@),
        kicks_shaped(r.1@, 5),
{
    let cells = orientations(
        shape((0, 3), (0, 2), (1, 2), (2, 2)),
        shape((1, 3), (2, 3), (1, 2), (1, 1)),
        shape((0, 2), (1, 2), (2, 2), (2, 1)),
        shape((1, 3), (1, 2), (0, 1), (1, 1)),
    );
    let kicks = transitions(
        offsets5((0, 0), (-1, 0), (-1, 1), (0, -2), (-1, -2)), offsets5((0, 0), (1, 0), (1, 1), (0, -2), (1, -2)),
        offsets5((0, 0), (1, 0), (1, -1), (0, 2), (1, 2)), offsets5((0, 0), (1, 0), (1, -1), (0, 2), (1, 2)),
        offsets5((0, 0), (1, 0), (1, 1), (0, -2), (1, -2)), offsets5((0, 0), (-1, 0), (-1, 1), (0, -2), (-1, -2)),
        offsets5((0, 0), (-1, 0), (-1, -1), (0, 2), (-1, 2)), offsets5((0, 0), (-1, 0), (-1, -1), (0, 2), (-1, 2)),
    );
    (cells, kicks)
}

fn srs_l() -> (r: (Vec<Vec<(i8, i8)>>, Vec<Vec<Vec<(i8, i8)>>>))
    ensures
        kind_tables_ok(r.0@, r.1@),
        kicks_shaped(r.1@, 5),
{
    let cells = orientations(
        shape((2, 3), (0, 2), (1, 2), (2, 2)),
        shape((1, 3), (1, 2), (1, 1), (2, 1)),
        shape((0, 2), (1, 2), (2, 2), (0, 1)),
        shape((0, 3), (1, 3), (1, 2), (1, 1)),
    );
    let kicks = transitions(
        offsets5((0, 0), (-1, 0), (-1, 1), (0, -2), (-1, -2)), offsets5((0, 0), (1, 0), (1, 1), (0, -2), (1, -2)),
        offsets5((0, 0), (1, 0), (1, -1), (0, 2), (1, 2)), offsets5((0, 0), (1, 0), (1, -1), (0, 2), (1, 2)),
        offsets5((0, 0), (1, 0), (1, 1), (0, -2), (1, -2)), offsets5((0, 0), (-1, 0), (-1, 1), (0, -2), (-1, -2)),
        offsets5((0, 0), (-1, 0), (-1, -1), (0, 2), (-1, 2)), offsets5((0, 0), (-1, 0), (-1, -1), (0, 2), (-1, 2)),
    );
    (cells, kicks)
}

fn srs_i() -> (r: (Vec<Vec<(i8, i8)>>, Vec<Vec<Vec<(i8, i8)>>>))
    ensures
        kind_tables_ok(r.0@, r.1@),
        kicks_shaped(r.1@, 5),
{
    let cells = orientations(
        shape((0, 2), (1, 2), (2, 2), (3, 2)),
        shape((2, 3), (2, 2), (2, 1), (2, 0)),
        shape((0, 1), (1, 1), (2, 1), (3, 1)),
        shape((1, 3), (1, 2), (1, 1), (1, 0)),
    );
    let kicks = transitions(
        offsets5((0, 0), (-2, 0), (1, 0), (-2, -1), (1, 2)), offsets5((0, 0), (-1, 0), (2, 0), (-1, 2), (2, -1)),
        offsets5((0, 0), (-1, 0), (2, 0), (-1, 2), (2, -1)), offsets5((0, 0), (2, 0), (-1, 0), (2, 1), (-1, -2)),
        offsets5((0, 0), (2, 0), (-1, 0), (2, 1), (-1, -2)), offsets5((0, 0), (1, 0), (-2, 0), (1, -2), (-2, 1)),
        offsets5((0, 0), (1, 0), (-2, 0), (1, -2), (-2, 1)), offsets5((0, 0), (-2, 0), (1, 0), (-2, -1), (1, 2)),
    );
    (cells, kicks)
}

fn srs_s() -> (r: (Vec<Vec<(i8, i8)>>, Vec<Vec<Vec<(i8, i8)>>>))
    ensures
        kind_tables_ok(r.0@, r.1@),
        kicks_shaped(r.1@, 5),
{
    let cells = orientations(
        shape((1, 3), (2, 3), (0, 2), (1, 2)),
        shape((1, 3), (1, 2), (2, 2), (2, 1)),
        shape((1, 2), (2, 2), (0, 1), (1, 1)),
        shape((0, 3), (0, 2), (1, 2), (1, 1)),
    );
    let kicks = transitions(
        offsets5((0, 0), (-1, 0), (-1, 1), (0, -2), (-1, -2)), offsets5((0, 0), (1, 0), (1, 1), (0, -2), (1, -2)),
        offsets5((0, 0), (1, 0), (1, -1), (0, 2), (1, 2)), offsets5((0, 0), (1, 0), (1, -1), (0, 2), (1, 2)),
        offsets5((0, 0), (1, 0), (1, 1), (0, -2), (1, -2)), offsets5((0, 0), (-1, 0), (-1, 1), (0, -2), (-1, -2)),
        offsets5((0, 0), (-1, 0), (-1, -1), (0, 2), (-1, 2)), offsets5((0, 0), (-1, 0), (-1, -1), (0, 2), (-1, 2)),
    );
    (cells, kicks)
}

fn srs_t() -> (r: (Vec<Vec<(i8, i8)>>, Vec<Vec<Vec<(i8, i8)>>>))
    ensures
        kind_tables_ok(r.0@, r.1@),
        kicks_shaped(r.1@, 5),
{
    let cells = orientations(
        shape((1, 3), (0, 2), (1, 2), (2, 2)),
        shape((1, 3), (1, 2), (2, 2), (1, 1)),
        shape((0, 2), (1, 2), (2, 2), (1, 1)),
        shape((1, 3), (0, 2), (1, 2), (1, 1)),
    );
    let kicks = transitions(
        offsets5((0, 0), (-1, 0), (-1, 1), (0, -2), (-1, -2)), offsets5((0, 0), (1, 0), (1, 1), (0, -2), (1, -2)),
        offsets5((0, 0), (1, 0), (1, -1), (0, 2), (1, 2)), offsets5((0, 0), (1, 0), (1, -1), (0, 2), (1, 2)),
        offsets5((0, 0), (1, 0), (1, 1), (0, -2), (1, -2)), offsets5((0, 0), (-1, 0), (-1, 1), (0, -2), (-1, -2)),
        offsets5((0, 0), (-1, 0), (-1, -1), (0, 2), (-1, 2)), offsets5((0, 0), (-1, 0), (-1, -1), (0, 2), (-1, 2)),
    );
    (cells, kicks)
}

fn srs_o() -> (r: (Vec<Vec<(i8, i8)>>, Vec<Vec<Vec<(i8, i8)>>>))
    ensures
        kind_tables_ok(r.0@, r.1@),
        kicks_shaped(r.1@, 1),
{
    let cells = orientations(
        shape((1, 3), (2, 3), (1, 2), (2, 2)),
        shape((1, 3), (2, 3), (1, 2), (2, 2)),
        shape((1, 3), (2, 3), (1, 2), (2, 2)),
        shape((1, 3), (2, 3), (1, 2), (2, 2)),
    );
    let kicks = transitions(
        offsets1((0, 0)), offsets1((0, 0)),
        offsets1((0, 0)), offsets1((0, 0)),
        offsets1((0, 0)), offsets1((0, 0)),
        offsets1((0, 0)), offsets1((0, 0)),
    );
    (cells, kicks)
}

fn ars_z() -> (r: (Vec<Vec<(i8, i8)>>, Vec<Vec<Vec<(i8, i8)>>>))
    ensures
        kind_tables_ok(r.0@, r.1@),
        kicks_shaped(r.1@, 3),
{
    let cells = orientations(
        shape((0, 2), (1, 2), (1, 1), (2, 1)),
        shape((2, 3), (1, 2), (2, 2), (1, 1)),
        shape((0, 2), (1, 2), (1, 1), (2, 1)),
        shape((2, 3), (1, 2), (2, 2), (1, 1)),
    );
    let kicks = transitions(
        offsets3((0, 0), (1, 0), (-1, 0)), offsets3((0, 0), (1, 0), (-1, 0)),
        offsets3((0, 0), (1, 0), (-1, 0)), offsets3((0, 0), (1, 0), (-1, 0)),
        offsets3((0, 0), (1, 0), (-1, 0)), offsets3((0, 0), (1, 0), (-1, 0)),
        offsets3((0, 0), (1, 0), (-1, 0)), offsets3((0, 0), (1, 0), (-1, 0)),
    );
    (cells, kicks)
}

fn ars_j() -> (r: (Vec<Vec<(i8, i8)>>, Vec<Vec<Vec<(i8, i8)>>>))
    ensures
        kind_tables_ok(r.0@, r.1@),
        kicks_shaped(r.1@, 3),
{
    let cells = orientations(
        shape((0, 2), (1, 2), (2, 2), (2, 1)),
        shape((1, 3), (1, 2), (0, 1), (1, 1)),
        shape((0, 2), (0, 1), (1, 1), (2, 1)),
        shape((1, 3), (2, 3), (1, 2), (1, 1)),
    );
    let kicks = transitions(
        offsets3((0, 0), (1, 0), (-1, 0)), offsets3((0, 0), (1, 0), (-1, 0)),
        offsets3((0, 0), (1, 0), (-1, 0)), offsets3((0, 0), (1, 0), (-1, 0)),
        offsets3((0, 0), (1, 0), (-1, 0)), offsets3((0, 0), (1, 0), (-1, 0)),
        offsets3((0, 0), (1, 0), (-1, 0)), offsets3((0, 0), (1, 0), (-1, 0)),
    );
    (cells, kicks)
}

fn ars_l() -> (r: (Vec<Vec<(i8, i8)>>, Vec<Vec<Vec<(i8, i8)>>>))
    ensures
        kind_tables_ok(r.0@, r.1@),
        kicks_shaped(r.1@, 3),
{
    let cells = orientations(
        shape((0, 2), (1, 2), (2, 2), (0, 1)),
        shape((0, 3), (1, 3), (1, 2), (1, 1)),
        shape((2, 2), (0, 1), (1, 1), (2, 1)),
        shape((1, 3), (1, 2), (1, 1), (2, 1)),
    );
    let kicks = transitions(
        offsets3((0, 0), (1, 0), (-1, 0)), offsets3((0, 0), (1, 0), (-1, 0)),
        offsets3((0, 0), (1, 0), (-1, 0)), offsets3((0, 0), (1, 0), (-1, 0)),
        offsets3((0, 0), (1, 0), (-1, 0)), offsets3((0, 0), (1, 0), (-1, 0)),
        offsets3((0, 0), (1, 0), (-1, 0)), offsets3((0, 0), (1, 0), (-1, 0)),
    );
    (cells, kicks)
}

fn ars_i() -> (r: (Vec<Vec<(i8, i8)>>, Vec<Vec<Vec<(i8, i8)>>>))
    ensures
        kind_tables_ok(r.0@, r.1@),
        kicks_shaped(r.1@, 1),
{
    let cells = orientations(
        shape((0, 2), (1, 2), (2, 2), (3, 2)),
        shape((2, 3), (2, 2), (2, 1), (2, 0)),
        shape((0, 2), (1, 2), (2, 2), (3, 2)),
        shape((2, 3), (2, 2), (2, 1), (2, 0)),
    );
    let kicks = transitions(
        offsets1((0, 0)), offsets1((0, 0)),
        offsets1((0, 0)), offsets1((0, 0)),
        offsets1((0, 0)), offsets1((0, 0)),
        offsets1((0, 0)), offsets1((0, 0)),
    );
    (cells, kicks)
}

fn ars_s() -> (r: (Vec<Vec<(i8, i8)>>, Vec<Vec<Vec<(i8, i8)>>>))
    ensures
        kind_tables_ok(r.0@, r.1@),
        kicks_shaped(r.1@, 3),
{
    let cells = orientations(
        shape((1, 2), (2, 2), (0, 1), (1, 1)),
        shape((0, 3), (0, 2), (1, 2), (1, 1)),
        shape((1, 2), (2, 2), (0, 1), (1, 1)),
        shape((0, 3), (0, 2), (1, 2), (1, 1)),
    );
    let kicks = transitions(
        offsets3((0, 0), (1, 0), (-1, 0)), offsets3((0, 0), (1, 0), (-1, 0)),
        offsets3((0, 0), (1, 0), (-1, 0)), offsets3((0, 0), (1, 0), (-1, 0)),
        offsets3((0, 0), (1, 0), (-1, 0)), offsets3((0, 0), (1, 0), (-1, 0)),
        offsets3((0, 0), (1, 0), (-1, 0)), offsets3((0, 0), (1, 0), (-1, 0)),
    );
    (cells, kicks)
}

fn ars_t() -> (r: (Vec<Vec<(i8, i8)>>, Vec<Vec<Vec<(i8, i8)>>>))
    ensures
        kind_tables_ok(r.0@, r.1@),
        kicks_shaped(r.1@, 3),
{
    let cells = orientations(
        shape((0, 2), (1, 2), (2, 2), (1, 1)),
        shape((1, 3), (0, 2), (1, 2), (1, 1)),
        shape((1, 2), (0, 1), (1, 1), (2, 1)),
        shape((1, 3), (1, 2), (2, 2), (1, 1)),
    );
    let kicks = transitions(
        offsets3((0, 0), (1, 0), (-1, 0)), offsets3((0, 0), (1, 0), (-1, 0)),
        offsets3((0, 0), (1, 0), (-1, 0)), offsets3((0, 0), (1, 0), (-1, 0)),
        offsets3((0, 0), (1, 0), (-1, 0)), offsets3((0, 0), (1, 0), (-1, 0)),
        offsets3((0, 0), (1, 0), (-1, 0)), offsets3((0, 0), (1, 0), (-1, 0)),
    );
    (cells, kicks)
}

fn ars_o() -> (r: (Vec<Vec<(i8, i8)>>, Vec<Vec<Vec<(i8, i8)>>>))
    ensures
        kind_tables_ok(r.0@, r.1@),
        kicks_shaped(r.1@, 1),
{
    let cells = orientations(
        shape((1, 2), (2, 2), (1, 1), (2, 1)),
        shape((1, 2), (2, 2), (1, 1), (2, 1)),
        shape((1, 2), (2, 2), (1, 1), (2, 1)),
        shape((1, 2), (2, 2), (1, 1), (2, 1)),
    );
    let kicks = transitions(
        offsets1((0, 0)), offsets1((0, 0)),
        offsets1((0, 0)), offsets1((0, 0)),
        offsets1((0, 0)), offsets1((0, 0)),
        offsets1((0, 0)), offsets1((0, 0)),
    );
    (cells, kicks)
}


} // verus!
