use vstd::prelude::*;

verus! {

/// Something that happened during a step, for the sound collaborator.
#[derive(Clone, Copy, Debug, PartialEq, Eq, Structural)]
pub enum Event {
    BulletFired,
    BulletHitWood,
    BulletHitRock,
    ObstacleDestroyed,
    BoatDestroyed,
    RepairCollected,
    WeaponCollected,
    PowerUpExhausted,
}

/// `n` times the same event.
pub open spec fn repeated(e: Event, n: nat) -> Seq<Event> {
    Seq::new(n, |i: int| e)
}

} // verus!
