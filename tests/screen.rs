use rc_game::{
    cls, draw_terminal_frame, renderable_floor, renderable_wall, CellWrite, ClearRow, Color,
    Offset, Renderable, Renderer, TermCell,
};

fn glyph(c: char) -> Renderable {
    Renderable { glyph: c, fg: Color::Yellow, bg: None }
}

#[test]
fn default_renderable_is_blank() {
    let d = Renderable::default();
    assert_eq!(d, Renderable { glyph: ' ', fg: Color::White, bg: None });
    assert_eq!(renderable_floor(), Renderable { glyph: '.', fg: Color::Yellow, bg: None });
    assert_eq!(renderable_wall(), Renderable { glyph: '#', fg: Color::DarkGrey, bg: None });
}

#[test]
fn renderable_equality_needs_all_three_parts() {
    let a = Renderable { glyph: 'x', fg: Color::Red, bg: None };
    assert_ne!(a, Renderable { glyph: 'y', ..a });
    assert_ne!(a, Renderable { fg: Color::Blue, ..a });
    assert_ne!(a, Renderable { bg: Some(Color::Black), ..a });
    assert_eq!(a, Renderable { glyph: 'x', fg: Color::Red, bg: None });
}

#[test]
fn new_renderer_flushes_nothing() {
    let mut r = Renderer::new(Offset::new(1, 1), 4, 3);
    assert!(r.flush().is_empty());
}

#[test]
fn flush_writes_only_changed_cells() {
    let mut r = Renderer::new(Offset::new(10, 5), 4, 3);
    r.render(0, 0, &glyph('a'));
    r.render(3, 2, &glyph('b'));
    r.render(1, 1, &Renderable::default());
    let writes = r.flush();
    assert_eq!(
        writes,
        vec![
            CellWrite { x: 10, y: 5, cell: glyph('a') },
            CellWrite { x: 13, y: 7, cell: glyph('b') },
        ]
    );
}

#[test]
fn second_flush_writes_nothing() {
    let mut r = Renderer::new(Offset::new(1, 1), 5, 5);
    r.render(2, 2, &glyph('@'));
    r.render(4, 0, &glyph('#'));
    assert_eq!(r.flush().len(), 2);
    assert!(r.flush().is_empty());
}

#[test]
fn redrawing_the_same_scene_writes_nothing() {
    let mut r = Renderer::new(Offset::new(1, 1), 3, 3);
    r.render(1, 1, &glyph('@'));
    assert_eq!(r.flush().len(), 1);
    r.render(1, 1, &glyph('@'));
    assert!(r.flush().is_empty());
}

#[test]
fn count_of_writes_matches_changed_cells() {
    let mut r = Renderer::new(Offset::new(0, 0), 3, 2);
    r.render(0, 0, &glyph('a'));
    r.render(1, 0, &glyph('b'));
    assert_eq!(r.flush().len(), 2);
    r.render(0, 0, &glyph('a'));
    r.render(1, 0, &glyph('c'));
    r.render(2, 1, &glyph('d'));
    let writes = r.flush();
    assert_eq!(writes.len(), 2);
    assert_eq!(writes[0], CellWrite { x: 1, y: 0, cell: glyph('c') });
    assert_eq!(writes[1], CellWrite { x: 2, y: 1, cell: glyph('d') });
}

#[test]
fn move_up_writes_new_cell_and_erases_old() {
    let mut r = Renderer::new(Offset::new(1, 1), 3, 3);
    r.render(1, 1, &glyph('@'));
    assert_eq!(r.flush().len(), 1);
    r.render(1, 1, &Renderable::default());
    r.render(1, 0, &glyph('@'));
    let writes = r.flush();
    assert_eq!(
        writes,
        vec![
            CellWrite { x: 2, y: 1, cell: glyph('@') },
            CellWrite { x: 2, y: 2, cell: Renderable::default() },
        ]
    );
}

#[test]
fn frame_around_a_small_grid() {
    let cells = draw_terminal_frame(&Offset::new(1, 1), 2, 1);
    assert_eq!(
        cells,
        vec![
            TermCell { x: 0, y: 0, glyph: '╔' },
            TermCell { x: 3, y: 0, glyph: '╗' },
            TermCell { x: 3, y: 2, glyph: '╝' },
            TermCell { x: 0, y: 2, glyph: '╚' },
            TermCell { x: 1, y: 0, glyph: '═' },
            TermCell { x: 1, y: 2, glyph: '═' },
            TermCell { x: 2, y: 0, glyph: '═' },
            TermCell { x: 2, y: 2, glyph: '═' },
            TermCell { x: 0, y: 1, glyph: '║' },
            TermCell { x: 3, y: 1, glyph: '║' },
        ]
    );
}

#[test]
fn frame_cell_count_for_the_standard_grid() {
    let cells = draw_terminal_frame(&Offset::new(1, 1), 80, 25);
    assert_eq!(cells.len(), 4 + 2 * 80 + 2 * 25);
}

#[test]
fn cls_clears_every_grid_row() {
    let rows = cls(&Offset::new(3, 2), 10, 3);
    assert_eq!(
        rows,
        vec![
            ClearRow { x: 3, y: 2, wall_x: 13 },
            ClearRow { x: 3, y: 3, wall_x: 13 },
            ClearRow { x: 3, y: 4, wall_x: 13 },
        ]
    );
}
