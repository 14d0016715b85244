use playdate::ApiVersion;
use playdate::AutoLockState;
use playdate::BitmapFlip;
use playdate::Button;
use playdate::ButtonState;
use playdate::Buttons;
use playdate::Checked;
use playdate::Color;
use playdate::CollisionResponse;
use playdate::CrankSoundState;
use playdate::CrankState;
use playdate::DateTime;
use playdate::DisplayScale;
use playdate::DrawMode;
use playdate::DrawTime;
use playdate::Duration;
use playdate::FrameResult;
use playdate::GameObject;
use playdate::HiddenFiles;
use playdate::Language;
use playdate::Persistance;
use playdate::Playdate;
use playdate::Rect;
use playdate::ScreenFlip;
use playdate::SpriteHandle;
use playdate::ScreenInversion;
use playdate::Sprite;
use playdate::SpriteBuilder;
use playdate::UnlinkMode;

fn hub() -> Playdate<(), ()> {
    Playdate::new(())
}

#[test]
fn display_reports_the_scaled_screen() {
    let mut pd = hub();
    assert_eq!(pd.display().width(), 400);
    assert_eq!(pd.display().height(), 240);
    pd.display_mut().set_scale(DisplayScale::Two);
    assert_eq!(pd.display().width(), 200);
    assert_eq!(pd.display().height(), 120);
    pd.display_mut().set_scale(DisplayScale::Eight);
    assert_eq!(pd.display().width(), 50);
    assert_eq!(pd.display().height(), 30);
    pd.display_mut().set_inverted(ScreenInversion::Inverted);
    pd.display_mut().set_flipped(ScreenFlip::Flipped, ScreenFlip::Normal);
    pd.display_mut().set_mosaic(2, 3);
    pd.display_mut().set_offset(-4, 9);
    assert_eq!(ScreenInversion::Inverted.code(), 1);
    assert_eq!(ScreenFlip::Flipped.code(), 1);
    assert_eq!(DisplayScale::Four.factor(), 4);
}

#[test]
fn system_clock_round_trip() {
    let mut pd = hub();
    assert_eq!(pd.system().current_time_milliseconds(), 0);
    pd.system_mut().advance_time(1500);
    assert_eq!(pd.system().current_time_milliseconds(), 1500);
    pd.system_mut().reset_elapsed_time();
    pd.system_mut().advance_time(250);
    assert_eq!(pd.system().elapsed_time_milliseconds(), 250);
    pd.system_mut().set_seconds_since_epoch(Duration { seconds: 777, milliseconds: 123 });
    let now = pd.system().seconds_since_epoch();
    assert_eq!(now.seconds, 777);
    assert_eq!(now.milliseconds, 123);
    pd.system_mut().set_timezone_offset(-3600);
    assert_eq!(pd.system().timezone_offset(), -3600);
}

#[test]
fn system_preferences_and_toggles() {
    let mut pd = hub();
    assert!(!pd.system().should_display_24_hour_time());
    assert!(!pd.system().flipped());
    assert!(!pd.system().reduce_flashing());
    pd.system_mut().set_system_prefs(true, true, true);
    assert!(pd.system().should_display_24_hour_time());
    assert!(pd.system().flipped());
    assert!(pd.system().reduce_flashing());
    assert_eq!(pd.system().crank_state(), CrankState::Docked);
    pd.system_mut().set_crank_docked(false);
    assert_eq!(pd.system().crank_state(), CrankState::Undocked);
    pd.system_mut().set_auto_lock_enabled(AutoLockState::Disabled);
    let previous = pd.system_mut().set_crank_sounds_enabled(CrankSoundState::Disabled);
    assert_eq!(previous, CrankSoundState::Enabled);
    let previous = pd.system_mut().set_crank_sounds_enabled(CrankSoundState::Enabled);
    assert_eq!(previous, CrankSoundState::Disabled);
    pd.system_mut().set_language(Language::Japanese);
    assert_eq!(pd.system().language(), Language::Japanese);
    pd.system_mut().draw_fps(0, 0);
    pd.system_mut().clear_icache();
    pd.system_mut().set_button_callback(16);
    pd.system_mut().set_peripherals_enabled(playdate::Peripherals::accelerometer());
    pd.system_mut().log_to_console(String::from("hello world"));
    pd.system_mut().error(String::from("fatal"));
    let lines = pd.system().console_lines();
    assert_eq!(lines.len(), 2);
    assert_eq!(lines[0].as_str(), "hello world");
    assert_eq!(lines[1].as_str(), "fatal");
}

#[test]
fn button_state_reads_back_the_fed_bits() {
    let mut pd = hub();
    let held = ButtonState::none().with(Button::A).with(Button::Left);
    pd.system_mut().set_button_state(Buttons {
        pushed: ButtonState::from_bits(0),
        current: held,
        released: ButtonState::none(),
    });
    let read = pd.system().button_state();
    assert!(read.current.contains(Button::A));
    assert!(read.current.contains(Button::Left));
    assert!(!read.current.contains(Button::B));
    assert_eq!(read.current.bits, 33);
    assert_eq!(Button::Down.mask(), 8);
    let both = ButtonState::none().with(Button::Up).union(&held);
    assert_eq!(both.bits, 4 | 33);
}

#[test]
fn menu_rows_keep_stable_identities() {
    let mut pd = hub();
    let a = pd.system_mut().add_menu_item(String::from("Restart"));
    let b = pd.system_mut().add_checkmark_menu_item(String::from("Music"), Checked::Checked);
    let c = pd.system_mut().add_options_menu_item(
        String::from("Speed"),
        vec![String::from("slow"), String::from("fast")],
    );
    assert_eq!((a, b, c), (0, 1, 2));
    assert_eq!(pd.system().menu_item_title(0).unwrap().as_str(), "Restart");
    // a plain row carries no value; a checkmark reads 1 when checked
    assert_eq!(pd.system().menu_item_value(0), None);
    assert_eq!(pd.system().menu_item_value(1), Some(1));
    assert_eq!(pd.system().menu_item_value(2), Some(0));
    assert!(pd.system_mut().set_menu_item_value(2, 1));
    assert_eq!(pd.system().menu_item_value(2), Some(1));
    assert!(pd.system_mut().set_menu_item_value(1, 0));
    assert_eq!(pd.system().menu_item_value(1), Some(0));
    assert!(pd.system_mut().set_menu_item_title(0, String::from("Retry")));
    assert_eq!(pd.system().menu_item_title(0).unwrap().as_str(), "Retry");
    // removing a row leaves its slot empty and later rows in place
    assert!(pd.system_mut().remove_menu_item(1));
    assert!(pd.system().menu_item_title(1).is_none());
    assert!(!pd.system_mut().remove_menu_item(1));
    assert_eq!(pd.system().menu_item_title(2).unwrap().as_str(), "Speed");
    // replacing the menu image hands the old reference back
    let img = pd.graphics_mut().new_bitmap(8, 8, Color::Black);
    assert!(pd.system_mut().set_menu_image(img, 12).is_none());
    let img2 = pd.graphics_mut().new_bitmap(4, 4, Color::White);
    let old = pd.system_mut().set_menu_image(img2, 0).unwrap();
    assert!(pd.graphics_mut().release(old));
}

#[test]
fn datetime_to_epoch_exact_values() {
    let pd = hub();
    let origin = DateTime { year: 2000, month: 1, day: 1, weekday: 6, hour: 0, minute: 0, second: 0 };
    assert_eq!(pd.system().convert_datetime_to_epoch(&origin), 0);
    let next_day = DateTime { year: 2000, month: 1, day: 2, weekday: 0, hour: 0, minute: 0, second: 0 };
    assert_eq!(pd.system().convert_datetime_to_epoch(&next_day), 86400);
    // 2000 is a leap year: March 1 comes 60 days in
    let march = DateTime { year: 2000, month: 3, day: 1, weekday: 3, hour: 0, minute: 0, second: 0 };
    assert_eq!(pd.system().convert_datetime_to_epoch(&march), 60 * 86400);
    let next_year = DateTime { year: 2001, month: 1, day: 1, weekday: 1, hour: 0, minute: 0, second: 0 };
    assert_eq!(pd.system().convert_datetime_to_epoch(&next_year), 366 * 86400);
    // 2100 is not a leap year
    let after_century = DateTime { year: 2100, month: 3, day: 1, weekday: 1, hour: 0, minute: 0, second: 0 };
    let before_century = DateTime { year: 2100, month: 2, day: 28, weekday: 0, hour: 0, minute: 0, second: 0 };
    let gap = pd.system().convert_datetime_to_epoch(&after_century)
        - pd.system().convert_datetime_to_epoch(&before_century);
    assert_eq!(gap, 86400);
    let noonish = DateTime { year: 2022, month: 6, day: 20, weekday: 1, hour: 12, minute: 34, second: 56 };
    assert_eq!(pd.system().convert_datetime_to_epoch(&noonish), 709_043_696);
}

#[test]
fn epoch_to_datetime_round_trip() {
    let pd = hub();
    let origin = pd.system().convert_epoch_to_datetime(0);
    assert_eq!((origin.year, origin.month, origin.day), (2000, 1, 1));
    assert_eq!((origin.hour, origin.minute, origin.second), (0, 0, 0));
    // January 1, 2000 was a Saturday
    assert_eq!(origin.weekday, 6);
    let noonish = pd.system().convert_epoch_to_datetime(709_043_696);
    assert_eq!((noonish.year, noonish.month, noonish.day), (2022, 6, 20));
    assert_eq!((noonish.hour, noonish.minute, noonish.second), (12, 34, 56));
    // and a Monday
    assert_eq!(noonish.weekday, 1);
    for epoch in [1, 86399, 86400, 5_184_000, 951_867_295, 4_102_444_800u32] {
        let dt = pd.system().convert_epoch_to_datetime(epoch);
        assert_eq!(pd.system().convert_datetime_to_epoch(&dt), epoch);
    }
}

#[test]
fn file_results_carry_the_engine_message() {
    let mut pd = hub();
    assert!(pd.file_system().fs_result_from_int(0).is_ok());
    assert!(pd.file_system().fs_result_from_int(7).is_ok());
    pd.file_system_mut().set_last_error(String::from("No such file"));
    let err = pd.file_system().fs_result_from_int(-1).unwrap_err();
    assert_eq!(err.text().as_str(), "No such file");
    assert_eq!(UnlinkMode::Recursive.code(), 1);
    assert_eq!(HiddenFiles::Show.code(), 1);
}

#[test]
fn bitmap_geometry_is_padded_to_words() {
    let mut pd = hub();
    let bmp = pd.graphics_mut().new_bitmap(40, 30, Color::White);
    let data = pd.graphics().bitmap_data(&bmp);
    assert_eq!(data.width, 40);
    assert_eq!(data.height, 30);
    assert_eq!(data.row_bytes, 8);
    let wide = pd.graphics_mut().new_bitmap(32, 2, Color::Black);
    assert_eq!(pd.graphics().bitmap_data(&wide).row_bytes, 4);
    assert!(!bmp.same_bitmap(&wide));
}

#[test]
fn bitmap_reference_counting() {
    let mut pd = hub();
    let bmp = pd.graphics_mut().new_bitmap(8, 8, Color::Clear);
    assert_eq!(pd.graphics().ref_count(&bmp), 1);
    let second = pd.graphics_mut().retain(&bmp);
    assert_eq!(pd.graphics().ref_count(&bmp), 2);
    assert!(second.same_bitmap(&bmp));
    let freed = pd.graphics_mut().release(second);
    assert!(!freed);
    assert_eq!(pd.graphics().ref_count(&bmp), 1);
    let freed = pd.graphics_mut().release(bmp);
    assert!(freed);
}

#[test]
fn numeric_encodings_match_the_native_tables() {
    assert_eq!(CollisionResponse::Slide.code(), 0);
    assert_eq!(CollisionResponse::Freeze.code(), 1);
    assert_eq!(CollisionResponse::Overlap.code(), 2);
    assert_eq!(CollisionResponse::Bounce.code(), 3);
    assert_eq!(CollisionResponse::try_from_code(1), Some(CollisionResponse::Freeze));
    assert_eq!(CollisionResponse::try_from_code(4), None);
    assert_eq!(CollisionResponse::default(), CollisionResponse::Bounce);
    assert_eq!(BitmapFlip::FlippedXY.code(), 3);
    assert_eq!(BitmapFlip::try_from_code(2), Some(BitmapFlip::FlippedY));
    assert_eq!(BitmapFlip::try_from_code(9), None);
    assert_eq!(DrawMode::Inverted.code(), 7);
    assert_eq!(DrawMode::Copy.code(), 0);
    assert_eq!(Language::try_from_code(0), Some(Language::English));
    assert_eq!(Language::try_from_code(3), None);
    assert_eq!(Checked::Unchecked.code(), 1);
    assert_eq!(DrawTime::Always.code(), 1);
    assert_eq!(FrameResult::Update.code(), 1);
    assert_eq!(FrameResult::NoUpdate.code(), 0);
    let v = ApiVersion::current();
    assert_eq!((v.major, v.minor, v.patch), (2, 4, 2));
    assert_eq!(Color::XOR.code(), 3);
}

/// Logic for the traversal-order test: each actor appends its own mark to
/// the shared log when updated.
enum Marker {
    At(u8, i16),
}

impl GameObject<Vec<u8>> for Marker {
    fn init(
        &mut self,
        builder: SpriteBuilder<Self>,
        pd: &mut Playdate<Vec<u8>, Self>,
    ) -> Sprite<Self> {
        let Marker::At(_, z) = self;
        let z = *z;
        builder.z_index(z).add(pd.sprite_mut()).build()
    }

    fn update(&mut self, _me: &mut Sprite<Self>, pd: &mut Playdate<Vec<u8>, Self>) -> Persistance {
        let Marker::At(mark, _) = self;
        let mark = *mark;
        pd.data_mut().push(mark);
        Persistance::Keep
    }
}

#[test]
fn traversal_follows_drawing_order() {
    let mut pd: Playdate<Vec<u8>, Marker> = Playdate::new(Vec::new());
    pd.new_sprite(Marker::At(1, 50));
    pd.new_sprite(Marker::At(2, -3));
    pd.new_sprite(Marker::At(3, 7));
    pd.update_and_draw_sprites();
    // ascending z-index, whatever the spawn order
    assert_eq!(pd.data().as_slice(), &[2, 3, 1]);
    // a tick leaves the registry order as it found it
    assert_eq!(pd.sprite().get(0).handle(), SpriteHandle(0));
    assert_eq!(pd.sprite().get(1).handle(), SpriteHandle(1));
    assert_eq!(pd.sprite().get(2).handle(), SpriteHandle(2));
}

#[test]
fn clip_rects_apply_to_the_z_range() {
    let mut pd: Playdate<Vec<u8>, Marker> = Playdate::new(Vec::new());
    pd.new_sprite(Marker::At(1, 5));
    pd.new_sprite(Marker::At(2, 20));
    let clip = Rect { x: 0, y: 0, width: 100, height: 100 };
    pd.sprite_mut().set_clip_rects_in_range(clip, 0, 10);
    assert_eq!(pd.sprite().get(0).clip_rect(), Some(clip));
    assert_eq!(pd.sprite().get(1).clip_rect(), None);
    pd.sprite_mut().clear_clip_rects_in_range(0, 10);
    assert_eq!(pd.sprite().get(0).clip_rect(), None);
    pd.sprite_mut().set_always_redraw(DrawTime::Always);
    pd.sprite_mut().add_dirty_rect(clip);
}

#[test]
fn spatial_queries_scan_the_registry() {
    let mut pd: Playdate<Vec<u8>, Boxy> = Playdate::new(Vec::new());
    pd.new_sprite(Boxy(Rect { x: 0, y: 0, width: 10, height: 10 }));
    pd.new_sprite(Boxy(Rect { x: 100, y: 100, width: 10, height: 10 }));
    let at_origin = pd.sprite().query_at_point(5, 5);
    assert_eq!(at_origin.len(), 1);
    assert_eq!(at_origin[0], pd.sprite().get(0).handle());
    let around_both = pd.sprite().query_in_rect(Rect { x: 0, y: 0, width: 200, height: 200 });
    assert_eq!(around_both.len(), 2);
    let nowhere = pd.sprite().query_at_point(50, 50);
    assert_eq!(nowhere.len(), 0);
}

/// Logic for the spatial-query test: a sprite with fixed bounds.
struct Boxy(Rect);

impl GameObject<Vec<u8>> for Boxy {
    fn init(
        &mut self,
        builder: SpriteBuilder<Self>,
        pd: &mut Playdate<Vec<u8>, Self>,
    ) -> Sprite<Self> {
        let Boxy(bounds) = self;
        let bounds = *bounds;
        builder.bounds(bounds).add(pd.sprite_mut()).build()
    }
}
