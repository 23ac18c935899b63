use std::collections::VecDeque;

use rtop::config::ThemeName;
use rtop::metrics::ProcessInfo;
use rtop::ui::color::{load_stops, neutral_border, theme_background, Palette, Tone};
use rtop::ui::cores::{core_bar_lines, core_bar_rows, core_lines, quantized_braille, CoreLayout, CoreLine};
use rtop::ui::graph::{
    braille_bit, braille_char, braille_graph, braille_graph_centered, braille_graph_top_down, centered_amplitude_dots, visible_samples,
};
use rtop::ui::layout::{
    core_box_height, core_box_rows, cpu_columns, cpu_panel_areas, graph_area, graph_rows, halves, panel_inner, process_area, screen_areas,
    Constraint, Rect,
};
use rtop::ui::processes::process_lines;

#[test]
fn braille_bits_follow_the_dot_numbering() {
    let expected = [[0x01, 0x02, 0x04, 0x40], [0x08, 0x10, 0x20, 0x80]];
    for x in 0..2 {
        for y in 0..4 {
            assert_eq!(braille_bit(x, y), expected[x][y]);
        }
    }
    assert_eq!(braille_bit(2, 0), 0);
    assert_eq!(braille_bit(0, 4), 0);
    assert_eq!(braille_char(0), '\u{2800}');
    assert_eq!(braille_char(0xff), '\u{28ff}');
    assert_eq!(braille_char(0x47), '\u{2847}');
}

#[test]
fn window_pads_on_the_left() {
    let h: VecDeque<u32> = VecDeque::from(vec![1, 2, 3]);
    assert_eq!(visible_samples(&h, 5, 0), vec![0, 0, 1, 2, 3]);
    assert_eq!(visible_samples(&h, 2, 0), vec![2, 3]);
    assert_eq!(visible_samples(&h, 0, 0), Vec::<u32>::new());
}

fn naive_bottom_up(filled: &[usize], width: usize, height: usize) -> Vec<Vec<u8>> {
    let graph_height = height * 4;
    let mut rows = Vec::new();
    for row in 0..height {
        let mut cells = Vec::new();
        for col in 0..width {
            let mut bits = 0u8;
            for x in 0..2 {
                for y in 0..4 {
                    if filled[col * 2 + x] >= graph_height - (row * 4 + y) {
                        bits |= braille_bit(x, y);
                    }
                }
            }
            cells.push(bits);
        }
        rows.push(cells);
    }
    rows
}

fn naive_centered(amps: &[usize], width: usize, height: usize) -> Vec<Vec<u8>> {
    let center = height / 2;
    let mut rows = Vec::new();
    for row in 0..height {
        let mut cells = Vec::new();
        for col in 0..width {
            let mut bits = 0u8;
            for x in 0..2 {
                for y in 0..4 {
                    if (row * 4 + y).abs_diff(center * 4) <= amps[col * 2 + x] {
                        bits |= braille_bit(x, y);
                    }
                }
            }
            cells.push(bits);
        }
        rows.push(cells);
    }
    rows
}

#[test]
fn graphs_match_a_naive_drawing() {
    for width in 1..6 {
        for height in 1..5 {
            let levels: Vec<usize> = (0..2 * width).map(|i| (i * 7 + height) % (height * 4 + 2)).collect();
            assert_eq!(braille_graph(&levels, width, height), naive_bottom_up(&levels, width, height));
            assert_eq!(braille_graph_centered(&levels, width, height), naive_centered(&levels, width, height));
        }
    }
    assert!(braille_graph(&vec![], 0, 3).is_empty());
    assert!(braille_graph(&vec![0, 0], 1, 0).is_empty());
    assert!(braille_graph_centered(&vec![], 0, 3).is_empty());
}

#[test]
fn full_and_empty_columns() {
    assert_eq!(braille_graph(&vec![4, 4], 1, 1), vec![vec![0xff]]);
    assert_eq!(braille_graph(&vec![0, 0], 1, 1), vec![vec![0]]);
    assert_eq!(braille_graph(&vec![1, 0], 1, 1), vec![vec![0x40]]);
    assert_eq!(centered_amplitude_dots(0), 4);
    assert_eq!(centered_amplitude_dots(1), 4);
    assert_eq!(centered_amplitude_dots(5), 8);
    assert_eq!(centered_amplitude_dots(6), 12);
}

#[test]
fn core_rows_for_two_columns() {
    assert_eq!(core_bar_rows(0), 1);
    assert_eq!(core_bar_rows(1), 1);
    assert_eq!(core_bar_rows(7), 4);
    assert_eq!(core_bar_rows(8), 4);
    assert_eq!(core_bar_rows(131_072), 0);
}

fn expand(lines: &[CoreLine]) -> Vec<Option<Vec<usize>>> {
    lines
        .iter()
        .map(|l| match *l {
            CoreLine::Cores { first, step, count } => Some((0..count).map(|c| first + c * step).collect()),
            CoreLine::Divider => None,
        })
        .collect()
}

fn naive_core_box(n: usize, width: u16, height: u16) -> Option<(usize, Vec<Option<Vec<usize>>>)> {
    let rows = height.max(1) as usize;
    let data_rows = rows.div_ceil(2).max(1);
    let columns = n.div_ceil(data_rows).max(1);
    let column_width = (width as usize).saturating_sub(columns - 1) / columns.max(1);
    let used_rows = n.min(data_rows);
    if column_width < 8 {
        return None;
    }
    let mut lines = Vec::new();
    for row in 0..used_rows {
        let mut idx = Vec::new();
        for col in 0..columns {
            let i = row + col * data_rows;
            if i < n {
                idx.push(i);
            }
        }
        lines.push(Some(idx));
        if lines.len() < rows && row + 1 < used_rows {
            lines.push(None);
        }
    }
    Some((column_width, lines))
}

#[test]
fn core_box_matches_naive_layout() {
    assert_eq!(core_lines(0, 40, 10), CoreLayout::Waiting);
    for n in 1..40 {
        for width in [10u16, 20, 42, 60] {
            for height in [0u16, 1, 2, 5, 8, 13] {
                let got = core_lines(n, width, height);
                match naive_core_box(n, width, height) {
                    None => assert_eq!(got, CoreLayout::TooNarrow),
                    Some((cw, lines)) => match got {
                        CoreLayout::Grid { column_width, lines: got_lines } => {
                            assert_eq!(column_width, cw);
                            assert_eq!(expand(&got_lines), lines, "{n} {width} {height}");
                        }
                        other => panic!("unexpected {other:?}"),
                    },
                }
            }
        }
    }
}

#[test]
fn core_bars_fill_left_column_first() {
    assert_eq!(core_bar_lines(0, 80), CoreLayout::Waiting);
    match core_bar_lines(5, 60) {
        CoreLayout::Grid { column_width, lines } => {
            assert_eq!(column_width, 29);
            assert_eq!(
                expand(&lines),
                vec![Some(vec![0, 3]), Some(vec![1, 4]), Some(vec![2])]
            );
        }
        other => panic!("unexpected {other:?}"),
    }
    match core_bar_lines(3, 30) {
        CoreLayout::Grid { column_width, lines } => {
            assert_eq!(column_width, 30);
            assert_eq!(expand(&lines), vec![Some(vec![0]), Some(vec![1]), Some(vec![2])]);
        }
        other => panic!("unexpected {other:?}"),
    }
}

#[test]
fn bar_glyphs() {
    let glyphs: Vec<char> = (0..10u8).map(quantized_braille).collect();
    assert_eq!(glyphs.iter().collect::<String>(), "⠀⢀⢠⢰⢸⣸⣾⣿⣿⣿");
}

#[test]
fn gradients_and_tones() {
    let ocean_cpu = Palette::Cpu.stops(ThemeName::Ocean);
    let positions: Vec<u8> = ocean_cpu.iter().map(|s| s.position).collect();
    assert_eq!(positions, vec![0, 45, 75, 100]);
    assert_eq!((ocean_cpu[0].red, ocean_cpu[0].green, ocean_cpu[0].blue), (28, 210, 230));
    let gruv_mem = Palette::Memory.stops(ThemeName::GruvboxDark);
    assert_eq!(gruv_mem.len(), 5);
    assert_eq!(gruv_mem[2].position, 65);
    assert_eq!(Palette::Memory.stops(ThemeName::Mono), Palette::Cpu.stops(ThemeName::Mono));
    let load = load_stops(ThemeName::Ember);
    assert_eq!((load[3].red, load[3].green, load[3].blue), (176, 52, 52));
    assert_eq!(theme_background(ThemeName::Ocean), Tone::Rgb(10, 14, 20));
    assert_eq!(neutral_border(), Tone::Rgb(128, 132, 138));
    assert_eq!(Palette::Cpu.accent(), Tone::LightCyan);
    assert_eq!(Palette::Memory.accent(), Tone::LightGreen);
    for theme in [ThemeName::Ocean, ThemeName::Ember, ThemeName::Mono, ThemeName::GruvboxDark] {
        for palette in [Palette::Cpu, Palette::Memory] {
            let stops = palette.stops(theme);
            assert_eq!(stops.first().unwrap().position, 0);
            assert_eq!(stops.last().unwrap().position, 100);
            assert!(stops.windows(2).all(|w| w[0].position < w[1].position));
        }
    }
}

fn rect(x: u16, y: u16, width: u16, height: u16) -> Rect {
    Rect { x, y, width, height }
}

#[test]
fn panel_inside_matches_ratatui() {
    for r in [rect(0, 0, 10, 5), rect(3, 4, 1, 1), rect(0, 0, 0, 0), rect(65535, 65535, 5, 5), rect(65534, 2, 3, 9)] {
        let outer = ratatui::layout::Rect { x: r.x, y: r.y, width: r.width, height: r.height };
        let inner = ratatui::widgets::Block::bordered().inner(outer);
        assert_eq!(panel_inner(r), rect(inner.x, inner.y, inner.width, inner.height));
    }
    assert_eq!(panel_inner(rect(2, 3, 10, 6)), rect(3, 4, 8, 4));
}

#[test]
fn small_panels_are_left_empty() {
    assert_eq!(graph_area(rect(0, 0, 9, 4)), None);
    assert_eq!(graph_area(rect(0, 0, 10, 4)), Some(rect(1, 1, 8, 2)));
    assert_eq!(process_area(rect(0, 0, 13, 3)), None);
    assert_eq!(process_area(rect(0, 0, 14, 3)), Some(rect(1, 1, 12, 1)));
    assert_eq!(cpu_panel_areas(rect(0, 0, 25, 8)), None);
    assert_eq!(cpu_panel_areas(rect(0, 0, 26, 7)), None);
}

#[test]
fn core_box_height_matches_f32_arithmetic() {
    for h in 0..=u16::MAX {
        let desired = if h >= 12 {
            ((h as f32) * 0.72) as u16
        } else if h >= 8 {
            h.saturating_sub(2)
        } else {
            h
        }
        .max(5)
        .min(h);
        assert_eq!(core_box_height(h), desired, "{h}");
    }
}

#[test]
fn screen_is_split_into_panels() {
    let areas = screen_areas(rect(0, 0, 100, 40));
    assert_eq!(areas.cpu, rect(0, 0, 100, 20));
    assert_eq!(areas.memory, rect(0, 20, 50, 20));
    assert_eq!(areas.processes, rect(50, 20, 50, 20));
    let cpu = cpu_panel_areas(areas.cpu).unwrap();
    assert_eq!(cpu.core_box.width, 44);
    assert_eq!(cpu.center_line.height, 1);
    assert_eq!(cpu.upper_graph.width, 98 - 44);
    assert_eq!(cpu.cores, panel_inner(cpu.core_box));
    assert_eq!(cpu.core_box.height, 12);
}

fn proc(pid: u32, name: &str, memory_bytes: u64) -> ProcessInfo {
    ProcessInfo { pid, name: name.to_string(), memory_bytes }
}

#[test]
fn process_table_columns() {
    let list = vec![proc(1, "systemd", 12 * 1024 * 1024), proc(4242, "firefox-bin", 3 * 1024 * 1024 * 1024)];
    assert!(process_lines(&list, 13, 5).is_empty());
    assert!(process_lines(&list, 40, 0).is_empty());
    let rows = process_lines(&list, 30, 2);
    assert_eq!(rows.len(), 2);
    assert_eq!(rows[0].pid, "PID   ");
    assert_eq!(rows[0].name, "Name         ");
    assert_eq!(rows[0].ram, "      RAM");
    assert_eq!(rows[1].pid, "     1");
    assert_eq!(rows[1].name, "systemd      ");
    assert_eq!(rows[1].ram, "   12 MiB");
    let rows = process_lines(&list, 30, 10);
    assert_eq!(rows.len(), 3);
    assert_eq!(rows[2].name, "firefox-bin  ");
    let cut = process_lines(&list, 21, 10);
    assert_eq!(cut[2].name, "fire");
    assert_eq!(rows[2].ram, "  3.0 GiB");
    let narrow = process_lines(&list, 14, 3);
    assert_eq!(narrow[0].pid, "PID   ");
    assert_eq!(narrow[0].ram, "   RAM");
    assert_eq!(narrow[1].name, "");
}

#[test]
fn core_box_shows_every_core_once() {
    for n in 1..70usize {
        for height in [0u16, 1, 2, 3, 7, 12, 20] {
            if let CoreLayout::Grid { lines, .. } = core_lines(n, 200, height) {
                let mut shown: Vec<usize> = expand(&lines).into_iter().flatten().flatten().collect();
                shown.sort();
                assert_eq!(shown, (0..n).collect::<Vec<_>>(), "{n} {height}");
                assert!(lines.len() <= height.max(1) as usize);
            }
        }
    }
}

fn flip(bits: u8) -> u8 {
    let mut out = 0;
    for x in 0..2 {
        for y in 0..4 {
            if bits & braille_bit(x, y) != 0 {
                out |= braille_bit(x, 3 - y);
            }
        }
    }
    out
}

#[test]
fn top_down_graph_mirrors_bottom_up() {
    for width in 1..4 {
        for height in 1..5 {
            let levels: Vec<usize> = (0..2 * width).map(|i| (i * 5 + 1) % (height * 4 + 1)).collect();
            let up = braille_graph(&levels, width, height);
            let down = braille_graph_top_down(&levels, width, height);
            for row in 0..height {
                for col in 0..width {
                    assert_eq!(down[row][col], flip(up[height - 1 - row][col]));
                }
            }
        }
    }
    assert_eq!(braille_graph_top_down(&vec![1, 0], 1, 1), vec![vec![0x01]]);
}

#[test]
fn bar_glyphs_only_gain_dots() {
    for low in 0u8..=9 {
        for high in low..=9 {
            let a = quantized_braille(low) as u32 - 0x2800;
            let b = quantized_braille(high) as u32 - 0x2800;
            assert_eq!(a & !b, 0, "{low} {high}");
        }
    }
}

#[test]
fn layout_constraints() {
    assert_eq!(halves(), vec![Constraint::Percentage(50), Constraint::Percentage(50)]);
    assert_eq!(graph_rows(), vec![Constraint::Min(1), Constraint::Length(1), Constraint::Min(1)]);
    assert_eq!(cpu_columns(24), vec![Constraint::Min(10), Constraint::Length(24)]);
    assert_eq!(cpu_columns(98), vec![Constraint::Min(10), Constraint::Length(44)]);
    assert_eq!(cpu_columns(30), vec![Constraint::Min(10), Constraint::Length(30)]);
    // 18 lines: the box takes (18 * 0.72) as u16 = 12 lines, three above it.
    assert_eq!(core_box_rows(18), vec![Constraint::Length(3), Constraint::Length(12), Constraint::Min(0)]);
    // 9 lines: the box takes 7, one line above it.
    assert_eq!(core_box_rows(9), vec![Constraint::Length(1), Constraint::Length(7), Constraint::Min(0)]);
    assert_eq!(core_box_rows(6), vec![Constraint::Length(0), Constraint::Length(6), Constraint::Min(0)]);
}

#[test]
fn screen_parts_stay_inside_the_screen() {
    for (w, h) in [(80u16, 24u16), (1, 1), (0, 0), (200, 61), (33, 7)] {
        let area = rect(3, 2, w, h);
        let s = screen_areas(area);
        for r in [s.cpu, s.memory, s.processes] {
            assert!(r.x >= area.x && r.x + r.width <= area.x + area.width);
            assert!(r.y >= area.y && r.y + r.height <= area.y + area.height);
        }
        assert_eq!(s.cpu.y, area.y);
        assert_eq!(s.cpu.y + s.cpu.height, s.memory.y);
        assert_eq!(s.memory.x, area.x);
        assert_eq!(s.memory.x + s.memory.width, s.processes.x);
    }
}

#[test]
fn cpu_panel_parts_come_in_order() {
    for (w, h) in [(100u16, 20u16), (26, 8), (60, 31), (200, 50)] {
        let area = rect(1, 4, w, h);
        let inner = panel_inner(area);
        let c = cpu_panel_areas(area).unwrap();
        assert_eq!(c.upper_graph.x, inner.x);
        assert_eq!(c.upper_graph.y, inner.y);
        assert_eq!(c.center_line.y, c.upper_graph.y + c.upper_graph.height);
        assert_eq!(c.lower_graph.y, c.center_line.y + c.center_line.height);
        assert_eq!(c.center_line.height, 1);
        assert_eq!(c.core_box.x, c.upper_graph.x + c.upper_graph.width);
        assert_eq!(c.core_box.x + c.core_box.width, inner.x + inner.width);
        assert_eq!(c.lower_graph.y + c.lower_graph.height, inner.y + inner.height);
    }
}
