use commit_calendar::canvas::Canvas;
use commit_calendar::history::RepoLog;
use commit_calendar::pipeline::generate;
use commit_calendar::render::{push_legend, push_month, push_summary, push_year, render, DrawOp, Frame};
use commit_calendar::summary::{History, YearSummary};
use commit_calendar::theme::{Color, Theme};

fn log(dates: &str, changes: &str) -> RepoLog {
    RepoLog { dates: String::from(dates), changes: String::from(changes) }
}

fn blank() -> Color {
    Color { red: 0, green: 0, blue: 0, alpha: 0 }
}

fn text(x: u32, y: u32, text: &str, size: u32, color: Color) -> DrawOp {
    DrawOp::Text { x, y, text: String::from(text), size, color }
}

fn block(x: u32, y: u32, color: Color) -> DrawOp {
    DrawOp::Fill { x, y, width: 10, height: 10, color }
}

fn five_days_of_2023() -> RepoLog {
    log(
        "2023-06-15\n2023-06-16\n2023-06-17\n2023-06-18\n2023-06-19\n",
        "2023-06-15\n3\t2\tfoo.txt\n",
    )
}

#[test]
fn no_commits_give_a_blank_pixel() {
    let frame = generate(&Vec::new(), &Theme::light());
    assert_eq!(frame, Frame { width: 1, height: 1, background: blank(), ops: Vec::new() });
    let frame = generate(&vec![log("", ""), log("\n\n", "1\t1\tx\n")], &Theme::dark());
    assert_eq!(frame, Frame { width: 1, height: 1, background: blank(), ops: Vec::new() });
}

#[test]
fn years_below_the_threshold_give_a_blank_pixel() {
    let frame =
        generate(&vec![log("2023-01-01\n2023-01-02\n2023-01-03\n2023-01-04\n", "")], &Theme::light());
    assert_eq!(frame, Frame { width: 1, height: 1, background: blank(), ops: Vec::new() });
}

#[test]
fn a_month_is_its_label_and_its_days() {
    let theme = Theme::light();
    let history = History::gather(&vec![log("2023-02-01\n2023-02-28\n2023-02-28\n", "")]);
    let mut ops = Vec::new();
    push_month(&mut ops, &history, &theme, 1, 2023, 2);
    assert_eq!(ops.len(), 29);
    assert_eq!(ops[0], text(104, 136, "Feb", 12, theme.text_secondary));
    assert_eq!(ops[1], block(104, 156, theme.commit_colors[1]));
    assert_eq!(ops[2], block(116, 156, theme.commit_colors[0]));
    assert_eq!(ops[5], block(104, 168, theme.commit_colors[0]));
    assert_eq!(ops[28], block(140, 228, theme.commit_colors[2]));
}

#[test]
fn february_has_a_block_for_the_leap_day() {
    let theme = Theme::light();
    let history = History::gather(&Vec::new());
    let mut leap = Vec::new();
    push_month(&mut leap, &history, &theme, 0, 2024, 2);
    assert_eq!(leap.len(), 30);
    assert_eq!(leap[29], block(104, 104, theme.commit_colors[0]));
    let mut common = Vec::new();
    push_month(&mut common, &history, &theme, 0, 2100, 2);
    assert_eq!(common.len(), 29);
}

#[test]
fn summary_lines_show_the_figures_of_the_year() {
    let theme = Theme::dark();
    let summary = YearSummary {
        year: 2023,
        commits: 39,
        files: 7,
        insertions: 1000,
        deletions: 0,
        bucket_days: [0, 0, 0, 0, 0],
    };
    let mut ops = vec![block(0, 0, blank())];
    push_summary(&mut ops, &theme, 1, &summary);
    assert_eq!(
        ops,
        vec![
            block(0, 0, blank()),
            text(702, 146, "39 commits total", 8, theme.text_primary),
            text(702, 158, "7 files changed", 8, theme.text_primary),
            text(702, 170, "1000 insertions(+)", 8, theme.text_primary),
            text(702, 182, "0 deletions(-)", 8, theme.text_primary),
        ]
    );
}

#[test]
fn the_legend_shows_the_buckets_that_have_days() {
    let theme = Theme::github();
    let summary = YearSummary {
        year: 2023,
        commits: 0,
        files: 0,
        insertions: 0,
        deletions: 0,
        bucket_days: [5, 0, 2, 0, 1],
    };
    let mut ops = Vec::new();
    push_legend(&mut ops, &theme, 2, 0, &summary);
    assert_eq!(
        ops,
        vec![
            block(902, 84, theme.commit_colors[1]),
            text(916, 84, "5 days with 1 commit", 8, theme.text_secondary),
            block(902, 108, theme.commit_colors[3]),
            text(916, 108, "2 days with 5-9 commits", 8, theme.text_secondary),
            block(902, 132, theme.commit_colors[5]),
            text(916, 132, "1 days with 20+ commits", 8, theme.text_secondary),
        ]
    );
}

#[test]
fn the_legend_leaves_out_a_row_without_room() {
    let theme = Theme::github();
    let summary = YearSummary {
        year: 2023,
        commits: 0,
        files: 0,
        insertions: 0,
        deletions: 0,
        bucket_days: [0, 0, 0, 4, 1],
    };
    let mut ops = Vec::new();
    push_legend(&mut ops, &theme, 2, 1, &summary);
    assert_eq!(
        ops,
        vec![
            block(902, 256, theme.commit_colors[4]),
            text(916, 256, "4 days with 10-19 commits", 8, theme.text_secondary),
        ]
    );
}

#[test]
fn a_year_is_drawn_in_order() {
    let theme = Theme::light();
    let history = History::gather(&vec![five_days_of_2023()]);
    let mut ops = Vec::new();
    push_year(&mut ops, &history, &theme, 1, 0, 2023);
    assert_eq!(ops.len(), 1 + 12 + 365 + 4 + 2);
    assert_eq!(ops[0], text(5, 53, "2023", 16, theme.text_primary));
    assert_eq!(ops[1], text(50, 0, "Jan", 12, theme.text_secondary));
    assert_eq!(ops[2], block(50, 20, theme.commit_colors[0]));
    assert_eq!(ops[33], text(104, 0, "Feb", 12, theme.text_secondary));
    let june = 1 + 31 + 28 + 31 + 30 + 31 + 5;
    assert_eq!(ops[june], text(320, 0, "Jun", 12, theme.text_secondary));
    assert_eq!(ops[june + 14], block(332, 56, theme.commit_colors[0]));
    assert_eq!(ops[june + 15], block(344, 56, theme.commit_colors[1]));
    assert_eq!(ops[june + 19], block(344, 68, theme.commit_colors[1]));
    assert_eq!(ops[june + 20], block(356, 68, theme.commit_colors[0]));
    assert_eq!(ops[378], text(702, 10, "5 commits total", 8, theme.text_primary));
    assert_eq!(ops[379], text(702, 22, "1 files changed", 8, theme.text_primary));
    assert_eq!(ops[380], text(702, 34, "3 insertions(+)", 8, theme.text_primary));
    assert_eq!(ops[381], text(702, 46, "2 deletions(-)", 8, theme.text_primary));
    assert_eq!(ops[382], block(902, 84, theme.commit_colors[1]));
    assert_eq!(ops[383], text(916, 84, "5 days with 1 commit", 8, theme.text_secondary));
}

#[test]
fn a_later_year_has_a_separator_above_it() {
    let theme = Theme::light();
    let history = History::gather(&Vec::new());
    let mut ops = Vec::new();
    push_year(&mut ops, &history, &theme, 3, 2, 2020);
    assert_eq!(ops.len(), 1 + 12 + 366 + 1 + 4);
    assert_eq!(ops[0], text(5, 325, "2020", 16, theme.text_primary));
    assert_eq!(
        ops[379],
        DrawOp::Fill { x: 0, y: 262, width: 1156, height: 1, color: theme.separator }
    );
    assert_eq!(ops[380], text(702, 282, "0 commits total", 8, theme.text_primary));
}

#[test]
fn rendering_shows_the_given_years_from_the_top() {
    let theme = Theme::light();
    let history = History::gather(&vec![five_days_of_2023()]);
    let frame = render(&history, &theme, &vec![2023, 2019]);
    assert_eq!(frame.width, 1156);
    assert_eq!(frame.height, 272);
    assert_eq!(frame.background, theme.background);
    assert_eq!(frame.ops.len(), 384 + 1 + 12 + 365 + 1 + 4);
    assert_eq!(frame.ops[384], text(5, 189, "2019", 16, theme.text_primary));
}

#[test]
fn the_same_logs_give_the_same_image() {
    let logs = vec![five_days_of_2023(), log("2023-06-15\n2022-01-01\n", "2022-01-01\n1\t1\ta\n")];
    let first = generate(&logs, &Theme::github());
    let second = generate(&logs, &Theme::github());
    assert_eq!(first, second);
    assert_eq!(first.height, 136);
}

#[test]
fn a_canvas_starts_in_one_colour() {
    let red = Color { red: 255, green: 0, blue: 0, alpha: 255 };
    let canvas = Canvas::new(3, 2, red).unwrap();
    assert_eq!(canvas.size(), (3, 2));
    for y in 0..2 {
        for x in 0..3 {
            assert_eq!(canvas.pixel(x, y), Some(red));
        }
    }
    assert_eq!(canvas.pixel(3, 0), None);
    assert_eq!(canvas.pixel(0, 2), None);
}

#[test]
fn a_canvas_of_no_pixels_can_be_made() {
    let canvas = Canvas::new(0, 5, blank()).unwrap();
    assert_eq!(canvas.size(), (0, 5));
    assert_eq!(canvas.pixel(0, 0), None);
    assert_eq!(canvas.into_bytes(), Vec::<u8>::new());
}

#[test]
fn the_canvas_of_a_frame_has_its_size_and_background() {
    let frame = generate(&vec![five_days_of_2023()], &Theme::dark());
    let canvas = Canvas::for_frame(&frame).unwrap();
    assert_eq!(canvas.size(), (1156, 136));
    assert_eq!(canvas.pixel(0, 0), Some(Theme::dark().background));
    assert_eq!(canvas.pixel(1155, 135), Some(Theme::dark().background));
    let placeholder = Canvas::for_frame(&generate(&Vec::new(), &Theme::dark())).unwrap();
    assert_eq!(placeholder.size(), (1, 1));
    assert_eq!(placeholder.pixel(0, 0), Some(blank()));
}

#[test]
fn filling_a_rectangle_colours_its_pixels_only() {
    let white = Color { red: 255, green: 255, blue: 255, alpha: 255 };
    let green = Color { red: 0, green: 200, blue: 0, alpha: 255 };
    let mut canvas = Canvas::new(5, 4, white).unwrap();
    canvas.fill_rect(1, 1, 2, 2, green);
    for y in 0..4 {
        for x in 0..5 {
            let inside = (1..3).contains(&x) && (1..3).contains(&y);
            assert_eq!(canvas.pixel(x, y), Some(if inside { green } else { white }));
        }
    }
}

#[test]
fn filling_is_clipped_at_the_edges() {
    let white = Color { red: 255, green: 255, blue: 255, alpha: 255 };
    let green = Color { red: 0, green: 200, blue: 0, alpha: 255 };
    let mut canvas = Canvas::new(4, 4, white).unwrap();
    canvas.fill_rect(3, 2, 10, 10, green);
    canvas.fill_rect(4, 0, 1, 1, green);
    canvas.fill_rect(0, 4, 1, 1, green);
    canvas.fill_rect(0, 0, 0, 3, green);
    canvas.fill_rect(2, 0, u32::MAX, 0, green);
    canvas.fill_rect(u32::MAX, u32::MAX, u32::MAX, u32::MAX, green);
    for y in 0..4 {
        for x in 0..4 {
            let inside = x == 3 && y >= 2;
            assert_eq!(canvas.pixel(x, y), Some(if inside { green } else { white }));
        }
    }
}

#[test]
fn the_bytes_of_a_canvas_lie_row_after_row() {
    let mut canvas = Canvas::new(2, 2, blank()).unwrap();
    canvas.fill_rect(1, 0, 1, 1, Color { red: 1, green: 2, blue: 3, alpha: 4 });
    canvas.fill_rect(0, 1, 1, 1, Color { red: 5, green: 6, blue: 7, alpha: 8 });
    assert_eq!(canvas.into_bytes(), vec![0, 0, 0, 0, 1, 2, 3, 4, 5, 6, 7, 8, 0, 0, 0, 0]);
}

#[test]
fn a_canvas_is_made_from_its_bytes() {
    let bytes = vec![0, 0, 0, 0, 1, 2, 3, 4, 5, 6, 7, 8, 9, 10, 11, 12];
    let canvas = Canvas::from_bytes(2, 2, bytes.clone()).unwrap();
    assert_eq!(canvas.size(), (2, 2));
    assert_eq!(canvas.pixel(1, 0), Some(Color { red: 1, green: 2, blue: 3, alpha: 4 }));
    assert_eq!(canvas.pixel(0, 1), Some(Color { red: 5, green: 6, blue: 7, alpha: 8 }));
    assert_eq!(canvas.pixel(1, 1), Some(Color { red: 9, green: 10, blue: 11, alpha: 12 }));
    assert!(Canvas::from_bytes(2, 3, bytes.clone()).is_none());
    assert!(Canvas::from_bytes(1, 2, bytes.clone()).is_none());
    assert!(Canvas::from_bytes(4, 1, bytes).is_some());
}

#[test]
fn painting_stops_at_each_text() {
    let white = Color { red: 255, green: 255, blue: 255, alpha: 255 };
    let green = Color { red: 0, green: 200, blue: 0, alpha: 255 };
    let blue = Color { red: 0, green: 0, blue: 200, alpha: 255 };
    let ops = vec![
        DrawOp::Fill { x: 0, y: 0, width: 2, height: 1, color: green },
        DrawOp::Fill { x: 1, y: 0, width: 2, height: 1, color: blue },
        text(0, 0, "a", 8, white),
        text(0, 0, "b", 8, white),
        DrawOp::Fill { x: 0, y: 0, width: 1, height: 1, color: blue },
    ];
    let mut canvas = Canvas::new(3, 1, white).unwrap();
    assert_eq!(canvas.paint_fills(&ops, 0), 2);
    assert_eq!(canvas.pixel(0, 0), Some(green));
    assert_eq!(canvas.pixel(1, 0), Some(blue));
    assert_eq!(canvas.pixel(2, 0), Some(blue));
    assert_eq!(canvas.paint_fills(&ops, 2), 2);
    assert_eq!(canvas.paint_fills(&ops, 3), 3);
    assert_eq!(canvas.pixel(0, 0), Some(green));
    assert_eq!(canvas.paint_fills(&ops, 4), 5);
    assert_eq!(canvas.pixel(0, 0), Some(blue));
    assert_eq!(canvas.paint_fills(&ops, 5), 5);
}

#[test]
fn the_blocks_of_a_frame_are_painted() {
    let theme = Theme::light();
    let frame = generate(&vec![five_days_of_2023()], &theme);
    let mut canvas = Canvas::for_frame(&frame).unwrap();
    let mut next = 0;
    while next < frame.ops.len() {
        next = canvas.paint_fills(&frame.ops, next);
        next += 1;
    }
    assert_eq!(canvas.pixel(344, 56), Some(theme.commit_colors[1]));
    assert_eq!(canvas.pixel(353, 65), Some(theme.commit_colors[1]));
    assert_eq!(canvas.pixel(354, 56), Some(theme.background));
    assert_eq!(canvas.pixel(332, 56), Some(theme.commit_colors[0]));
    assert_eq!(canvas.pixel(902, 84), Some(theme.commit_colors[1]));
    assert_eq!(canvas.pixel(0, 0), Some(theme.background));
}
