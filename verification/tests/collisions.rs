use playdate::CollisionResponse;
use playdate::GameObject;
use playdate::Persistance;
use playdate::Playdate;
use playdate::Point;
use playdate::Rect;
use playdate::Sprite;
use playdate::SpriteBuilder;
use playdate::SpriteCollisionInfo;
use playdate::SpriteHandle;
use playdate::SpriteOverlap;

/// What the moving probe observed during its update.
struct Telemetry {
    infos: Vec<SpriteCollisionInfo>,
    landed: Option<(i32, i32)>,
}

impl Telemetry {
    fn empty() -> Telemetry {
        Telemetry { infos: Vec::new(), landed: None }
    }
}

enum Probe {
    /// Moves toward the goal with collisions every update.
    MoveTo(i32, i32),
    /// Moves toward the goal but answers `Slide` to every collision.
    MoveBlocked(i32, i32),
    /// Asks what a motion toward the goal would hit, without moving.
    CheckOnly(i32, i32),
    /// A collidable sprite that never moves.
    Still(i32, i32),
}

impl GameObject<Telemetry> for Probe {
    fn init(
        &mut self,
        builder: SpriteBuilder<Self>,
        pd: &mut Playdate<Telemetry, Self>,
    ) -> Sprite<Self> {
        let (x, y) = match &*self {
            Probe::Still(x, y) => (*x, *y),
            _ => (0, 0),
        };
        builder
            .move_to(x, y)
            .collide_rect(Rect { x: 0, y: 0, width: 10, height: 10 })
            .add(pd.sprite_mut())
            .build()
    }

    fn update(
        &mut self,
        me: &mut Sprite<Self>,
        pd: &mut Playdate<Telemetry, Self>,
    ) -> Persistance {
        let plan: Option<(i32, i32, bool)> = match &*self {
            Probe::MoveTo(gx, gy) => Some((*gx, *gy, true)),
            Probe::MoveBlocked(gx, gy) => Some((*gx, *gy, true)),
            Probe::CheckOnly(gx, gy) => Some((*gx, *gy, false)),
            Probe::Still(_, _) => None,
        };
        if let Some((gx, gy, really_move)) = plan {
            let infos = if really_move {
                me.move_with_collisions(self, pd, gx, gy)
            } else {
                me.check_collisions(self, pd, gx, gy)
            };
            let here = me.position();
            pd.data_mut().infos = infos;
            pd.data_mut().landed = Some((here.x, here.y));
        }
        Persistance::Keep
    }

    fn collide(
        &mut self,
        _me: &mut Sprite<Self>,
        _other: SpriteHandle,
        _pd: &mut Playdate<Telemetry, Self>,
    ) -> CollisionResponse {
        match self {
            Probe::MoveBlocked(_, _) => CollisionResponse::Slide,
            _ => CollisionResponse::Overlap,
        }
    }
}

#[test]
fn empty_world_lands_exactly_on_goal() {
    let mut pd: Playdate<Telemetry, Probe> = Playdate::new(Telemetry::empty());
    pd.new_sprite(Probe::MoveTo(50, 60));
    pd.update_and_draw_sprites();
    assert_eq!(pd.data().infos.len(), 0);
    assert_eq!(pd.data().landed, Some((50, 60)));
    let here = pd.sprite().get(0).position();
    assert_eq!((here.x, here.y), (50, 60));
}

#[test]
fn overlapping_pair_reports_one_record() {
    let mut pd: Playdate<Telemetry, Probe> = Playdate::new(Telemetry::empty());
    pd.new_sprite(Probe::MoveTo(0, 0));
    pd.new_sprite(Probe::Still(0, 0));
    let partner = pd.sprite().get(1).handle();
    pd.update_and_draw_sprites();
    assert_eq!(pd.data().infos.len(), 1);
    let info = pd.data().infos[0];
    assert_eq!(info.other, partner);
    assert_eq!(info.overlaps, SpriteOverlap::Overlapping);
    assert_eq!(info.ti, 0);
    assert_eq!(info.response_type, CollisionResponse::Overlap);
    assert_eq!(info.moved, Point { x: 0, y: 0 });
    assert_eq!(info.normal, Point { x: 0, y: 0 });
    assert_eq!(info.touch, Point { x: 0, y: 0 });
    assert_eq!(info.sprite_rect, Rect { x: 0, y: 0, width: 10, height: 10 });
    assert_eq!(info.other_rect, Rect { x: 0, y: 0, width: 10, height: 10 });
    // response was Overlap: the (zero-length) motion completed
    assert_eq!(pd.data().landed, Some((0, 0)));
}

#[test]
fn blocking_response_leaves_the_mover_at_its_start() {
    let mut pd: Playdate<Telemetry, Probe> = Playdate::new(Telemetry::empty());
    pd.new_sprite(Probe::MoveBlocked(15, 0));
    pd.new_sprite(Probe::Still(20, 0));
    pd.update_and_draw_sprites();
    assert_eq!(pd.data().infos.len(), 1);
    let info = pd.data().infos[0];
    assert_eq!(info.response_type, CollisionResponse::Slide);
    // contact only at the far end of the motion
    assert_eq!(info.overlaps, SpriteOverlap::TunneledThrough);
    assert_eq!(info.ti, 1000);
    assert_eq!(info.normal, Point { x: -1, y: 0 });
    assert_eq!(info.touch, Point { x: 15, y: 0 });
    assert_eq!(info.moved, Point { x: 15, y: 0 });
    assert_eq!(info.other_rect, Rect { x: 20, y: 0, width: 10, height: 10 });
    // a blocking verdict holds the sprite at its start
    assert_eq!(pd.data().landed, Some((0, 0)));
}

#[test]
fn check_collisions_reports_without_moving() {
    let mut pd: Playdate<Telemetry, Probe> = Playdate::new(Telemetry::empty());
    pd.new_sprite(Probe::CheckOnly(15, 0));
    pd.new_sprite(Probe::Still(20, 0));
    pd.update_and_draw_sprites();
    assert_eq!(pd.data().infos.len(), 1);
    assert_eq!(pd.data().infos[0].overlaps, SpriteOverlap::TunneledThrough);
    // the what-if query never moves the sprite
    assert_eq!(pd.data().landed, Some((0, 0)));
}

#[test]
fn non_collidable_sprites_are_ignored() {
    let mut pd: Playdate<Telemetry, Probe> = Playdate::new(Telemetry::empty());
    pd.new_sprite(Probe::MoveTo(0, 0));
    pd.new_sprite(Probe::Still(0, 0));
    // stripping the world's collide rectangles empties the collision world
    pd.sprite_mut().reset_collision_world();
    assert!(pd.sprite().get(0).collide_rect().is_none());
    pd.update_and_draw_sprites();
    // the mover itself lost its collide rectangle: it moves freely
    assert_eq!(pd.data().infos.len(), 0);
    assert_eq!(pd.data().landed, Some((0, 0)));
}

#[test]
fn detached_partner_does_not_collide() {
    let mut pd: Playdate<Telemetry, Probe> = Playdate::new(Telemetry::empty());
    pd.new_sprite(Probe::MoveTo(0, 0));
    pd.new_sprite(Probe::Still(0, 0));
    let partner = pd.sprite().get(1).handle();
    assert!(pd.sprite_mut().remove_sprite(partner));
    pd.update_and_draw_sprites();
    // a sprite outside the scene takes no part in collision resolution
    assert_eq!(pd.data().infos.len(), 0);
}

#[test]
fn touching_edges_do_not_overlap() {
    let mut pd: Playdate<Telemetry, Probe> = Playdate::new(Telemetry::empty());
    pd.new_sprite(Probe::MoveTo(0, 0));
    // exactly adjacent: x spans [0,10) and [10,20)
    pd.new_sprite(Probe::Still(10, 0));
    pd.update_and_draw_sprites();
    assert_eq!(pd.data().infos.len(), 0);
}
