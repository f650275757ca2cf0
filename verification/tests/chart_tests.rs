use voxel_demo::chart::{Chart, DrawCmd};
use voxel_demo::image::Color;

#[test]
fn chart_defaults() {
    let chart = Chart::new();
    assert_eq!(chart.len(), 0);
    assert_eq!(chart.right_x(), 200);
    assert_eq!(chart.bottom_y(), 100);
}

#[test]
fn chart_overflow() {
    // The pop threshold is the literal 100: after the push that reaches 100
    // entries the oldest is dropped again, so the FIFO settles at 99.
    let mut chart = Chart::new();
    for i in 0..120u32 {
        chart.add_data(i);
    }
    assert_eq!(chart.len(), 99);
    assert_eq!(chart.sample_at(0), 119);
    assert_eq!(chart.sample_at(98), 21);
}

#[test]
fn chart_newest_at_front() {
    let mut chart = Chart::new();
    chart.add_data(3);
    chart.add_data(8);
    chart.add_data(5);
    assert_eq!(chart.len(), 3);
    assert_eq!(chart.sample_at(0), 5);
    assert_eq!(chart.sample_at(1), 8);
    assert_eq!(chart.sample_at(2), 3);
}

#[test]
fn chart_derived_fields_follow_configuration() {
    let chart = Chart::new().x(5).max_elem_count(10).column_width(3);
    assert_eq!(chart.right_x(), 5 + 10 * 3);
    let chart = chart.y(500).max_height(100);
    assert_eq!(chart.bottom_y(), 599);
    let chart = chart.y(10).max_height(50);
    assert_eq!(chart.bottom_y(), 60);
}

#[test]
fn chart_draw_is_pure() {
    let mut chart = Chart::new().y(370).max_height(100).column_width(2);
    for i in 0..25u32 {
        chart.add_data(i * 7 % 130);
    }
    let first = chart.draw();
    let second = chart.draw();
    assert_eq!(first, second);
}

#[test]
fn chart_draw_empty_exact() {
    let chart = Chart::new();
    let cmds = chart.draw();
    let orange = Color { r: 255, g: 102, b: 0 };
    let green = Color { r: 0, g: 255, b: 0 };
    let white = Color { r: 255, g: 255, b: 255 };
    let expected = vec![
        DrawCmd::Line { x1: 0, y1: 50, x2: 200, y2: 50, color: orange },
        DrawCmd::Text { x: 184, y: 50, color: orange, value: 50 },
        DrawCmd::Line { x1: 0, y1: 0, x2: 200, y2: 0, color: green },
        DrawCmd::Text { x: 176, y: 0, color: green, value: 100 },
        DrawCmd::Text { x: 200, y: 100, color: white, value: 0 },
    ];
    assert_eq!(cmds, expected);
}

#[test]
fn chart_draw_one_sample_exact() {
    let mut chart = Chart::new().max_height(2).column_width(1);
    chart.add_data(1);
    let cmds = chart.draw();
    let cap = Color { r: 217, g: 137, b: 50 };
    let orange = Color { r: 255, g: 102, b: 0 };
    let green = Color { r: 0, g: 255, b: 0 };
    let white = Color { r: 255, g: 255, b: 255 };
    let expected = vec![
        // One sub-column for the single sample: interpolated height 0, so
        // only the two cap pixels appear.
        DrawCmd::Point { x: 100, y: 2, color: cap },
        DrawCmd::Point { x: 100, y: 1, color: cap },
        DrawCmd::Line { x1: 0, y1: 1, x2: 100, y2: 1, color: orange },
        DrawCmd::Text { x: 84, y: 1, color: orange, value: 50 },
        DrawCmd::Line { x1: 0, y1: 0, x2: 100, y2: 0, color: green },
        DrawCmd::Text { x: 76, y: 0, color: green, value: 100 },
        DrawCmd::Text { x: 100, y: 1, color: white, value: 1 },
    ];
    assert_eq!(cmds, expected);
}

#[test]
fn chart_gradient_column_exact() {
    // One sample, column width 2: the second sub-column interpolates halfway
    // toward the clipped sample value 4, giving a 2-pixel gradient.
    let mut chart = Chart::new().max_height(4).column_width(2);
    chart.add_data(9);
    let cmds = chart.draw();
    let cap = Color { r: 217, g: 137, b: 50 };
    // Sub-column 0: height (0*2 + 4*0)/2 = 0; sub-column 1: (0*1 + 4*1)/2 = 2.
    let shade0 = Color { r: 42, g: 42, b: 42 };
    let shade1 = Color { r: 81, g: 81, b: 81 };
    let expected_prefix = vec![
        DrawCmd::Point { x: 200, y: 4, color: cap },
        DrawCmd::Point { x: 200, y: 3, color: cap },
        DrawCmd::Point { x: 199, y: 4, color: shade0 },
        DrawCmd::Point { x: 199, y: 3, color: shade1 },
        DrawCmd::Point { x: 199, y: 2, color: cap },
        DrawCmd::Point { x: 199, y: 1, color: cap },
    ];
    assert_eq!(&cmds[..6], &expected_prefix[..]);
}
