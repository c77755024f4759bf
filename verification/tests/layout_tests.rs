use kludgine::arena::Index;
use kludgine::layout::solve_axis;
use kludgine::layout::RowLayout;
use kludgine::math::Dimension;
use kludgine::math::Point;
use kludgine::math::Rect;
use kludgine::math::Size;
use kludgine::node::Layout;

fn layout_for(layouts: &Vec<(Index, Layout)>, index: Index) -> Layout {
    for entry in layouts {
        if entry.0 == index {
            return entry.1;
        }
    }
    panic!("no layout for index");
}

#[test]
fn two_auto_rows_one_fixed_smaller() {
    let layouts = RowLayout::default()
        .row(Index::new(0, 0), Dimension::Auto)
        .row(Index::new(0, 1), Dimension::from_length(30))
        .row(Index::new(0, 2), Dimension::Auto)
        .layouts_within_bounds(&Rect::new(Point::new(5, 5), Size::new(150, 100)));

    assert_eq!(layouts.len(), 3);
    assert_eq!(
        layout_for(&layouts, Index::new(0, 0)).inner_bounds(),
        Rect::new(Point::new(5, 5), Size::new(150, 35))
    );
    assert_eq!(
        layout_for(&layouts, Index::new(0, 1)).inner_bounds(),
        Rect::new(Point::new(5, 40), Size::new(150, 30))
    );
    assert_eq!(
        layout_for(&layouts, Index::new(0, 2)).inner_bounds(),
        Rect::new(Point::new(5, 70), Size::new(150, 35))
    );
}

#[test]
fn empty_chain_produces_no_layouts() {
    let layouts = RowLayout::default()
        .layouts_within_bounds(&Rect::new(Point::new(0, 0), Size::new(100, 100)));
    assert_eq!(layouts.len(), 0);
}

#[test]
fn uneven_leftover_spreads_spare_units_to_leading_autos() {
    // 100 - 29 = 71 units over two autos: 36 for the first, 35 for the
    // second.
    let layouts = RowLayout::default()
        .row(Index::new(0, 0), Dimension::Auto)
        .row(Index::new(0, 1), Dimension::from_length(29))
        .row(Index::new(0, 2), Dimension::Auto)
        .layouts_within_bounds(&Rect::new(Point::new(0, 0), Size::new(150, 100)));

    assert_eq!(
        layout_for(&layouts, Index::new(0, 0)).inner_bounds(),
        Rect::new(Point::new(0, 0), Size::new(150, 36))
    );
    assert_eq!(
        layout_for(&layouts, Index::new(0, 1)).inner_bounds(),
        Rect::new(Point::new(0, 36), Size::new(150, 29))
    );
    assert_eq!(
        layout_for(&layouts, Index::new(0, 2)).inner_bounds(),
        Rect::new(Point::new(0, 65), Size::new(150, 35))
    );
}

#[test]
fn fixed_rows_overflowing_leave_autos_empty() {
    let layouts = RowLayout::default()
        .row(Index::new(0, 0), Dimension::from_length(80))
        .row(Index::new(0, 1), Dimension::Auto)
        .row(Index::new(0, 2), Dimension::from_length(40))
        .layouts_within_bounds(&Rect::new(Point::new(0, 0), Size::new(10, 100)));

    assert_eq!(
        layout_for(&layouts, Index::new(0, 1)).inner_bounds(),
        Rect::new(Point::new(0, 80), Size::new(10, 0))
    );
}

#[test]
fn solve_axis_fixed_edges_win() {
    assert_eq!(solve_axis(Dimension::from_length(10), Dimension::from_length(30), Dimension::Auto, 99, 100), (10, 30));
    assert_eq!(
        solve_axis(Dimension::from_length(10), Dimension::Auto, Dimension::from_length(20), 99, 100),
        (10, 70)
    );
    assert_eq!(
        solve_axis(Dimension::Auto, Dimension::from_length(30), Dimension::from_length(20), 99, 100),
        (50, 30)
    );
}

#[test]
fn solve_axis_auto_edges_center_content() {
    // Both edges auto: the content length, centered.
    assert_eq!(solve_axis(Dimension::Auto, Dimension::Auto, Dimension::Auto, 40, 100), (30, 40));
    // A fixed extent with both edges auto is centered too.
    assert_eq!(solve_axis(Dimension::Auto, Dimension::from_length(20), Dimension::Auto, 99, 100), (40, 20));
    // Content wider than the container: the near edge wins.
    assert_eq!(solve_axis(Dimension::Auto, Dimension::Auto, Dimension::Auto, 140, 100), (0, 140));
}

#[test]
fn solve_axis_far_edge_positions_content() {
    assert_eq!(solve_axis(Dimension::Auto, Dimension::Auto, Dimension::from_length(10), 40, 100), (50, 40));
    // A negative span clamps to an empty length.
    assert_eq!(
        solve_axis(Dimension::from_length(80), Dimension::Auto, Dimension::from_length(50), 0, 100),
        (80, 0)
    );
}
