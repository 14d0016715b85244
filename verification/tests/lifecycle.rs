use playdate::Bitmap;
use playdate::BitmapFlip;
use playdate::Color;
use playdate::GameObject;
use playdate::Persistance;
use playdate::Playdate;
use playdate::Sprite;
use playdate::SpriteBuilder;
use playdate::SpriteHandle;

struct World {
    count: u32,
    image: Option<Bitmap>,
}

impl World {
    fn empty() -> World {
        World { count: 0, image: None }
    }
}

enum Actor {
    /// Built detached, tagged 3; never updates anything.
    IdleTagged,
    /// Built displayed; counts its updates in the world data.
    Counter,
    /// Built detached; counts its updates in the world data.
    DetachedCounter,
    /// Built displayed with the world's image; destroys itself on the first
    /// update after counting it.
    SelfDestruct,
    /// Asks to be added to the scene twice during construction.
    DoubleAdd,
    /// Restyles its sprite every update.
    Styler,
    /// Displayed, but with updates disabled and invisible; counts any
    /// update it would ever receive.
    DisabledCounter,
}

impl GameObject<World> for Actor {
    fn init(
        &mut self,
        builder: SpriteBuilder<Self>,
        pd: &mut Playdate<World, Self>,
    ) -> Sprite<Self> {
        match self {
            Actor::IdleTagged => builder.tag(3).build(),
            Actor::Counter => builder.add(pd.sprite_mut()).build(),
            Actor::DetachedCounter => builder.build(),
            Actor::SelfDestruct => {
                let image = pd.data_mut().image.take();
                let staged = match image {
                    Some(im) => builder.image(pd.graphics_mut(), im, BitmapFlip::Unflipped),
                    None => builder,
                };
                staged.add(pd.sprite_mut()).build()
            }
            Actor::DoubleAdd => builder.add(pd.sprite_mut()).add(pd.sprite_mut()).build(),
            Actor::Styler => builder.add(pd.sprite_mut()).build(),
            Actor::DisabledCounter => {
                let mut s = builder.add(pd.sprite_mut()).build();
                s.set_updates_enabled(playdate::UpdatesState::Disabled);
                s.set_visible(playdate::Visibility::Invisible);
                s
            }
        }
    }

    fn update(
        &mut self,
        me: &mut Sprite<Self>,
        pd: &mut Playdate<World, Self>,
    ) -> Persistance {
        match self {
            Actor::Counter | Actor::DetachedCounter | Actor::DisabledCounter => {
                pd.data_mut().count += 1;
                Persistance::Keep
            }
            Actor::SelfDestruct => {
                pd.data_mut().count += 1;
                Persistance::Destroy
            }
            Actor::Styler => {
                me.move_by(i32::MAX, -5);
                me.set_size(7, 9);
                me.set_image_flip(playdate::BitmapFlip::FlippedX);
                me.set_visible(playdate::Visibility::Invisible);
                me.set_z_index(-12);
                let stencil = pd.graphics_mut().new_bitmap(32, 8, Color::Black);
                me.set_stencil_image(pd.graphics_mut(), stencil, playdate::TileMode::Tile);
                Persistance::Keep
            }
            _ => Persistance::Keep,
        }
    }
}

/// A logic object that overrides nothing but `init`.
struct Passive;

impl GameObject<u32> for Passive {
    fn init(&mut self, builder: SpriteBuilder<Self>, pd: &mut Playdate<u32, Self>) -> Sprite<Self> {
        builder.add(pd.sprite_mut()).build()
    }
}

#[test]
fn tag_round_trip() {
    let mut pd: Playdate<World, Actor> = Playdate::new(World::empty());
    pd.new_sprite(Actor::IdleTagged);
    assert_eq!(pd.sprite().len(), 1);
    assert_eq!(pd.sprite().get(0).tag(), 3);
}

#[test]
fn index_of_finds_the_handle() {
    let mut pd: Playdate<World, Actor> = Playdate::new(World::empty());
    pd.new_sprite(Actor::IdleTagged);
    assert_eq!(pd.sprite().index_of(SpriteHandle(0)), Some(0));
    assert_eq!(pd.sprite().index_of(SpriteHandle(9)), None);
}

#[test]
fn add_is_idempotent() {
    let mut pd: Playdate<World, Actor> = Playdate::new(World::empty());
    pd.new_sprite(Actor::DoubleAdd);
    // added twice during construction, displayed once
    assert_eq!(pd.sprite().sprite_count(), 1);
    // adding again through the native-style entry point changes nothing
    assert!(pd.sprite_mut().add_sprite(SpriteHandle(0)));
    assert_eq!(pd.sprite().sprite_count(), 1);
}

#[test]
fn remove_is_idempotent() {
    let mut pd: Playdate<World, Actor> = Playdate::new(World::empty());
    pd.new_sprite(Actor::DoubleAdd);
    assert_eq!(pd.sprite().sprite_count(), 1);
    assert!(pd.sprite_mut().remove_sprite(SpriteHandle(0)));
    assert_eq!(pd.sprite().sprite_count(), 0);
    // removing a detached sprite changes nothing
    assert!(pd.sprite_mut().remove_sprite(SpriteHandle(0)));
    assert_eq!(pd.sprite().sprite_count(), 0);
    // an unknown handle is reported as such
    assert!(!pd.sprite_mut().remove_sprite(SpriteHandle(42)));
}

#[test]
fn default_update_keeps_and_mutates_nothing() {
    let mut pd: Playdate<u32, Passive> = Playdate::new(7);
    pd.new_sprite(Passive);
    pd.update_and_draw_sprites();
    pd.update_and_draw_sprites();
    // repeated ticks: the sprite survives (Keep) and nothing changed
    assert_eq!(*pd.data(), 7);
    assert_eq!(pd.sprite().len(), 1);
    assert_eq!(pd.sprite().sprite_count(), 1);
}

#[test]
fn never_added_is_absent_from_traversal() {
    let mut pd: Playdate<World, Actor> = Playdate::new(World::empty());
    pd.new_sprite(Actor::DetachedCounter);
    pd.update_and_draw_sprites();
    pd.update_and_draw_sprites();
    // never added to the scene: its update never ran
    assert_eq!(pd.data().count, 0);
    // explicitly added later, it joins the traversal
    assert!(pd.sprite_mut().add_sprite(SpriteHandle(0)));
    pd.update_and_draw_sprites();
    assert_eq!(pd.data().count, 1);
}

#[test]
fn destroy_runs_once_and_releases_everything() {
    let mut pd: Playdate<World, Actor> = Playdate::new(World::empty());
    let image = pd.graphics_mut().new_bitmap(16, 16, Color::White);
    assert_eq!(pd.graphics().ref_count(&image), 1);
    let for_sprite = pd.graphics_mut().retain(&image);
    assert_eq!(pd.graphics().ref_count(&image), 2);
    pd.data_mut().image = Some(for_sprite);
    pd.new_sprite(Actor::SelfDestruct);

    // round trip: the sprite reads back the same bitmap identity, and the
    // store holds one more reference than before the build
    assert_eq!(pd.sprite().len(), 1);
    let cached = pd.sprite().get(0).image().unwrap().slot_id();
    assert_eq!(cached, image.slot_id());
    assert_eq!(pd.graphics().ref_count(&image), 2);

    // the verdict tears the sprite down exactly once: it leaves the scene,
    // leaves the registry, and its cached reference is released
    pd.update_and_draw_sprites();
    assert_eq!(pd.data().count, 1);
    assert_eq!(pd.sprite().len(), 0);
    assert_eq!(pd.sprite().sprite_count(), 0);
    assert_eq!(pd.graphics().ref_count(&image), 1);

    // nothing is left to visit
    pd.update_and_draw_sprites();
    assert_eq!(pd.data().count, 1);
}

#[test]
fn remove_all_sprites_empties_the_world() {
    let mut pd: Playdate<World, Actor> = Playdate::new(World::empty());
    pd.new_sprite(Actor::Counter);
    pd.new_sprite(Actor::Counter);
    pd.new_sprite(Actor::DetachedCounter);
    assert_eq!(pd.sprite().len(), 3);
    assert_eq!(pd.sprite().sprite_count(), 2);
    pd.remove_all_sprites();
    assert_eq!(pd.sprite().len(), 0);
    assert_eq!(pd.sprite().sprite_count(), 0);
    pd.update_and_draw_sprites();
    assert_eq!(pd.data().count, 0);
}

#[test]
fn handles_are_never_reused() {
    let mut pd: Playdate<World, Actor> = Playdate::new(World::empty());
    pd.new_sprite(Actor::Counter);
    pd.remove_all_sprites();
    pd.new_sprite(Actor::Counter);
    // the second sprite gets a fresh identity even after the first is gone
    assert_eq!(pd.sprite().get(0).handle(), SpriteHandle(1));
}

#[test]
fn setters_read_back_and_movement_saturates() {
    let mut pd: Playdate<World, Actor> = Playdate::new(World::empty());
    pd.new_sprite(Actor::Styler);
    pd.update_and_draw_sprites();
    let s = pd.sprite().get(0);
    // a move beyond the coordinate range clamps at its end
    assert_eq!(s.position().x, i32::MAX);
    assert_eq!(s.position().y, -5);
    assert_eq!(s.bounds().width, 7);
    assert_eq!(s.bounds().height, 9);
    assert_eq!(s.image_flip(), playdate::BitmapFlip::FlippedX);
    assert_eq!(s.visible(), playdate::Visibility::Invisible);
    assert_eq!(s.z_index(), -12);
    // the engine keeps the stencil's tiling mode
    assert_eq!(s.stencil_tile(), playdate::TileMode::Tile);
    pd.update_and_draw_sprites();
    let s = pd.sprite().get(0);
    assert_eq!(s.position().x, i32::MAX);
    assert_eq!(s.position().y, -10);
}

#[test]
fn disabled_and_invisible_sprite_makes_the_tick_a_no_op() {
    let mut pd: Playdate<World, Actor> = Playdate::new(World::empty());
    pd.new_sprite(Actor::DisabledCounter);
    assert_eq!(pd.sprite().sprite_count(), 1);
    pd.update_and_draw_sprites();
    pd.update_and_draw_sprites();
    // displayed, but neither update-enabled nor visible: never visited
    assert_eq!(pd.data().count, 0);
    assert_eq!(pd.sprite().sprite_count(), 1);
}
