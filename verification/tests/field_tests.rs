use flowfield::field::{generate, FlowField};
use flowfield::vec2::Vec2;
use flowfield::{FIELD_LEN, FIELD_MAG_SQ_MAX, FIELD_MAG_SQ_MIN};

fn uniform_cells(x: i64, y: i64) -> Vec<Vec2> {
    let mut cells = Vec::new();
    for _ in 0..FIELD_LEN {
        cells.push(Vec2 { x, y });
    }
    cells
}

#[test]
fn field_has_full_shape_and_magnitude() {
    let field = FlowField::from_cells(uniform_cells(3000, 4000)).unwrap();
    assert_eq!(field.len(), FIELD_LEN);
    for i in 0..field.len() {
        let c = field.cell(i);
        let m2 = c.x * c.x + c.y * c.y;
        assert!(m2 >= FIELD_MAG_SQ_MIN && m2 <= FIELD_MAG_SQ_MAX);
    }
}

#[test]
fn from_cells_rejects_wrong_length() {
    let mut cells = uniform_cells(3000, 4000);
    cells.pop();
    assert!(FlowField::from_cells(cells).is_none());
}

#[test]
fn from_cells_rejects_wrong_magnitude() {
    let mut cells = uniform_cells(3000, 4000);
    cells[7] = Vec2 { x: 1, y: 1 };
    assert!(FlowField::from_cells(cells).is_none());
    let mut cells = uniform_cells(3000, 4000);
    cells[7] = Vec2 { x: 90_000, y: 0 };
    assert!(FlowField::from_cells(cells).is_none());
}

#[test]
fn generate_overwrites_every_cell() {
    let mut field = FlowField::from_cells(uniform_cells(3000, 4000)).unwrap();
    let samples = uniform_cells(-4000, -3000);
    generate(&mut field, &samples);
    assert_eq!(field.len(), FIELD_LEN);
    for i in 0..field.len() {
        assert_eq!(field.cell(i), Vec2 { x: -4000, y: -3000 });
    }
}

#[test]
fn generate_is_deterministic_in_its_samples() {
    let mut samples = uniform_cells(3000, 4000);
    samples[1249] = Vec2 { x: 0, y: 5000 };
    samples[0] = Vec2 { x: -5000, y: 0 };
    let mut f1 = FlowField::from_cells(uniform_cells(3000, 4000)).unwrap();
    let mut f2 = FlowField::from_cells(uniform_cells(-3000, -4000)).unwrap();
    generate(&mut f1, &samples);
    generate(&mut f2, &samples);
    for i in 0..FIELD_LEN {
        assert_eq!(f1.cell(i), f2.cell(i));
        assert_eq!(f1.cell(i), samples[i]);
    }
}
