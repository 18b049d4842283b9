use ubsg::piece::Piece;
use ubsg::randomizers::{Bag, BagX2, RandomWithoutDirectRepetition, Randomizer, TGM};
use ubsg::rotation::{LockDelayMode, RotationSystem};

fn kinds(v: &[Piece]) -> Vec<usize> {
    v.iter().map(|p| p.id).collect()
}

#[test]
fn bag_holds_each_kind_once_in_spawn_pose() {
    let rs = RotationSystem::srs();
    let mut bag = Bag::create();
    let batch = bag.populate_next(&rs, 10, 20);
    let mut k = kinds(&batch);
    k.sort();
    assert_eq!(k, vec![0, 1, 2, 3, 4, 5, 6]);
    for p in &batch {
        assert_eq!(p.rotation, 0);
        assert_eq!(p.position, (3, 18));
        assert_eq!(p.color as usize, p.id);
    }
}

#[test]
fn bag_order_is_shuffled() {
    let rs = RotationSystem::srs();
    let mut bag = Bag::create();
    let shuffled = (0..50).any(|_| kinds(&bag.populate_next(&rs, 10, 20)) != vec![0, 1, 2, 3, 4, 5, 6]);
    assert!(shuffled);
}

#[test]
fn double_bag_holds_each_kind_twice() {
    let rs = RotationSystem::srs();
    let mut bag = BagX2::create();
    let mut k = kinds(&bag.populate_next(&rs, 10, 20));
    k.sort();
    assert_eq!(k, vec![0, 0, 1, 1, 2, 2, 3, 3, 4, 4, 5, 5, 6, 6]);
}

#[test]
fn no_repeat_pick_draws_again_on_a_repeat() {
    let mut g = RandomWithoutDirectRepetition::create();
    assert_eq!(g.pick(10, 4), 3);
    assert_eq!(g.memory, 3);
    assert_eq!(g.pick(3, 5), 5);
    assert_eq!(g.pick(12, 5), 5);
    assert_eq!(g.pick(19, 13), 6);
}

#[test]
fn no_repeat_batch_is_one_piece() {
    let rs = RotationSystem::srs();
    let mut g = RandomWithoutDirectRepetition::create();
    for _ in 0..20 {
        let batch = g.populate_next(&rs, 10, 20);
        assert_eq!(batch.len(), 1);
        assert!(batch[0].id < 7);
        assert_eq!(g.memory, batch[0].id);
    }
}

#[test]
fn tgm_sequence_values() {
    assert_eq!(TGM::random(0), 12345);
    assert_eq!(TGM::random(1), 1103527590);
    let mut g = TGM { memory: vec![0, 0, 0, 0], seed: 0, opening: false };
    assert_eq!(g.read(), 12);
    assert_eq!(g.seed, 12345);
}

#[test]
fn tgm_opening_and_draws_follow_the_history() {
    let rs = RotationSystem::ars();
    let mut g = TGM::create(2024);
    assert_eq!(g.memory, vec![1, 0, 0, 0]);
    assert_eq!(g.seed, 131874305);
    let mut drawn = Vec::new();
    for _ in 0..7 {
        let batch = g.populate_next(&rs, 10, 20);
        assert_eq!(batch.len(), 1);
        drawn.push(batch[0].id);
    }
    assert_eq!(drawn, vec![1, 5, 6, 4, 3, 0, 2]);
    assert_eq!(g.memory, vec![2, 0, 3, 4]);
    assert_eq!(g.seed, 3952608223);
}

#[test]
fn randomizer_enum_dispatches() {
    let rs = RotationSystem::srs();
    let mut r = Randomizer::BagX2(BagX2::create());
    assert_eq!(r.populate_next(&rs, 10, 20).len(), 14);
    let mut r = Randomizer::TGM(TGM::create(2024));
    assert_eq!(kinds(&r.populate_next(&rs, 10, 20)), vec![1]);
    assert_eq!(kinds(&r.populate_next(&rs, 10, 20)), vec![5]);
}

#[test]
fn spawn_position_is_centred() {
    let rs = RotationSystem::srs();
    let p = Piece::create(&rs, 3, 10, 20);
    assert_eq!(p.position, (3, 18));
    let p = Piece::create(&rs, 6, 8, 16);
    assert_eq!(p.position, (2, 14));
}

#[test]
fn lookup_knows_two_rotation_systems() {
    assert_eq!(RotationSystem::lookup("SRS").unwrap().lock_delay_mode, LockDelayMode::ResetOnMovementLimited);
    assert_eq!(RotationSystem::lookup("ARS").unwrap().lock_delay_mode, LockDelayMode::ResetOnYChange);
    assert!(RotationSystem::lookup("XRS").is_none());
    assert!(RotationSystem::lookup("SR").is_none());
    assert!(RotationSystem::lookup("").is_none());
}

#[test]
fn tables_have_seven_kinds_of_four_orientations() {
    for rs in [RotationSystem::srs(), RotationSystem::ars()] {
        assert_eq!(rs.pieces.len(), 7);
        for k in 0..7 {
            assert_eq!(rs.pieces[k].len(), 4);
            assert!(rs.pieces[k].iter().all(|o| o.len() == 4));
            assert!(rs.kicks[k].iter().all(|o| o.len() == 2 && o.iter().all(|l| l[0] == (0, 0))));
        }
    }
    let srs = RotationSystem::srs();
    assert_eq!(srs.kicks[0][0][0].len(), 5);
    assert_eq!(srs.kicks[6][0][0].len(), 1);
}
