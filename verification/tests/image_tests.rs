use kludgine::component::Image;
use kludgine::component::ImageOptions;
use kludgine::component::ImageScaling;
use kludgine::component::Sprite;
use kludgine::math::Point;
use kludgine::math::Rect;
use kludgine::math::Size;

fn image_with_frame(width: i64, height: i64, scaling: Option<ImageScaling>) -> Image {
    let mut image = Image::new(Sprite::new(Size::new(width, height), Vec::new()))
        .options(ImageOptions { scaling });
    image.current_frame = Some(Size::new(width, height));
    image
}

fn bounds_100x50() -> Rect {
    Rect::new(Point::new(7, 9), Size::new(100, 50))
}

#[test]
fn an_unscaled_frame_keeps_its_own_size() {
    let image = image_with_frame(16, 24, None);
    assert_eq!(
        image.target_bounds(&bounds_100x50()),
        Rect::new(Point::new(7, 9), Size::new(16, 24))
    );
}

#[test]
fn fill_stretches_the_frame_over_the_rectangle() {
    let image = image_with_frame(16, 24, Some(ImageScaling::Fill));
    assert_eq!(image.target_bounds(&bounds_100x50()), bounds_100x50());
}

#[test]
fn aspect_fit_stays_inside_the_rectangle() {
    // A 20x10 frame in 100x50: scaling the width to 100 gives 100x50,
    // which already fits exactly.
    let image = image_with_frame(20, 10, Some(ImageScaling::AspectFit));
    assert_eq!(
        image.target_bounds(&bounds_100x50()),
        Rect::new(Point::new(7, 9), Size::new(100, 50))
    );

    // A square frame in 100x50: the width fit (100x100) overflows, so
    // the height fit (50x50) wins.
    let image = image_with_frame(32, 32, Some(ImageScaling::AspectFit));
    assert_eq!(
        image.target_bounds(&bounds_100x50()),
        Rect::new(Point::new(7, 9), Size::new(50, 50))
    );
}

#[test]
fn aspect_fill_covers_the_rectangle() {
    // A square frame in 100x50: the width fit (100x100) covers.
    let image = image_with_frame(32, 32, Some(ImageScaling::AspectFill));
    assert_eq!(
        image.target_bounds(&bounds_100x50()),
        Rect::new(Point::new(7, 9), Size::new(100, 100))
    );

    // A wide frame in 100x50: the width fit (100x25) does not cover, so
    // the height fit (200x50) does.
    let image = image_with_frame(40, 10, Some(ImageScaling::AspectFill));
    assert_eq!(
        image.target_bounds(&bounds_100x50()),
        Rect::new(Point::new(7, 9), Size::new(200, 50))
    );
}

#[test]
fn a_frameless_or_degenerate_image_occupies_nothing() {
    let image = Image::new(Sprite::new(Size::new(16, 24), Vec::new()));
    assert_eq!(
        image.target_bounds(&bounds_100x50()),
        Rect::new(Point::new(7, 9), Size::new(0, 0))
    );
    let degenerate = image_with_frame(0, 24, Some(ImageScaling::Fill));
    assert_eq!(
        degenerate.target_bounds(&bounds_100x50()),
        Rect::new(Point::new(7, 9), Size::new(0, 0))
    );
}

#[test]
fn aspect_scaling_rounds_down_to_whole_units() {
    // 3x7 scaled to width 10: height = 7 * 10 / 3 = 23 (23.33 rounded
    // down) — too tall for 50? No: fits, so the width fit wins.
    let image = image_with_frame(3, 7, Some(ImageScaling::AspectFit));
    assert_eq!(
        image.target_bounds(&Rect::new(Point::new(0, 0), Size::new(10, 50))),
        Rect::new(Point::new(0, 0), Size::new(10, 23))
    );
}
